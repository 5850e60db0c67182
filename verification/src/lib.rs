pub mod app_node;
pub mod config;
pub mod domain;
pub mod dto;
pub mod http_util;
pub mod json_text;
pub mod laws;
pub mod message_vo;
pub mod middleware;
pub mod password_utils;
pub mod router;
pub mod session_manager;
pub mod text;
pub mod user_service;
pub mod ws_conn;
