use vstd::prelude::*;
use vstd::string::*;

verus! {

/// One page of a listing together with the size of the whole listing.
#[derive(Debug, PartialEq, Eq)]
pub struct PageVo<T> {
    pub total: i64,
    pub list: Vec<T>,
}

impl<T> PageVo<T> {
    pub fn new(total: i64, list: Vec<T>) -> (page: Self)
        ensures
            page.total == total,
            page.list == list,
    {
        PageVo { total, list }
    }
}

/// The envelope of an answer: a code, a message and, on success, the data.
#[derive(Debug, PartialEq, Eq)]
pub struct ResultVo<T> {
    pub code: i32,
    pub msg: String,
    pub data: Option<T>,
}

impl<T> ResultVo<T> {
    /// The answer that carries `data`: code 0 and the message `success`.
    pub fn ok_with(data: T) -> (answer: Self)
        ensures
            answer.code == 0,
            answer.msg@ == "success"@,
            answer.data == Some(data),
    {
        ResultVo { code: 0, msg: String::from_str("success"), data: Some(data) }
    }

    /// The answer that reports a failure: the given code and message, and no
    /// data.
    pub fn error(code: i32, msg: String) -> (answer: Self)
        ensures
            answer.code == code,
            answer.msg == msg,
            answer.data.is_none(),
    {
        ResultVo { code, msg, data: None }
    }
}

} // verus!
