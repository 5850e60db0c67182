use vstd::prelude::*;
use vstd::string::*;

verus! {

/// The character that writes the hexadecimal digit `d`, in lower case.
pub open spec fn hex_char(d: nat) -> char {
    if d == 0 {
        '0'
    } else if d == 1 {
        '1'
    } else if d == 2 {
        '2'
    } else if d == 3 {
        '3'
    } else if d == 4 {
        '4'
    } else if d == 5 {
        '5'
    } else if d == 6 {
        '6'
    } else if d == 7 {
        '7'
    } else if d == 8 {
        '8'
    } else if d == 9 {
        '9'
    } else if d == 10 {
        'a'
    } else if d == 11 {
        'b'
    } else if d == 12 {
        'c'
    } else if d == 13 {
        'd'
    } else if d == 14 {
        'e'
    } else {
        'f'
    }
}

/// The character is a control character: its code is below 32.
pub open spec fn is_control(c: char) -> bool {
    (c as u32) < 32
}

/// How a character stands inside a JSON string. The quote and the
/// backslash get a backslash in front; backspace, tab, line feed, form feed
/// and carriage return are written with their letter; any other control
/// character is written with its code in four hexadecimal digits; every
/// other character stands for itself.
pub open spec fn json_escape_of(c: char) -> Seq<char> {
    if c == '"' {
        seq!['\\', '"']
    } else if c == '\\' {
        seq!['\\', '\\']
    } else if c == '\u{8}' {
        seq!['\\', 'b']
    } else if c == '\t' {
        seq!['\\', 't']
    } else if c == '\n' {
        seq!['\\', 'n']
    } else if c == '\u{c}' {
        seq!['\\', 'f']
    } else if c == '\r' {
        seq!['\\', 'r']
    } else if is_control(c) {
        seq!['\\', 'u', '0', '0', hex_char((c as u32 / 16) as nat), hex_char((c as u32 % 16) as nat)]
    } else {
        seq![c]
    }
}

/// The characters of `s` as they stand inside a JSON string, one after the
/// other.
pub open spec fn json_escaped(s: Seq<char>) -> Seq<char>
    decreases s.len(),
{
    if s.len() == 0 {
        Seq::<char>::empty()
    } else {
        json_escaped(s.drop_last()) + json_escape_of(s.last())
    }
}

/// The JSON string that holds the text `s`: the escaped characters between
/// two quotes.
pub open spec fn json_string_of(s: Seq<char>) -> Seq<char> {
    seq!['"'] + json_escaped(s) + seq!['"']
}

fn hex_str(d: u32) -> (s: &'static str)
    requires
        d < 16,
    ensures
        s@ == seq![hex_char(d as nat)],
{
    proof {
        reveal_strlit("0");
        reveal_strlit("1");
        reveal_strlit("2");
        reveal_strlit("3");
        reveal_strlit("4");
        reveal_strlit("5");
        reveal_strlit("6");
        reveal_strlit("7");
        reveal_strlit("8");
        reveal_strlit("9");
        reveal_strlit("a");
        reveal_strlit("b");
        reveal_strlit("c");
        reveal_strlit("d");
        reveal_strlit("e");
        reveal_strlit("f");
    }
    let s = if d == 0 {
        "0"
    } else if d == 1 {
        "1"
    } else if d == 2 {
        "2"
    } else if d == 3 {
        "3"
    } else if d == 4 {
        "4"
    } else if d == 5 {
        "5"
    } else if d == 6 {
        "6"
    } else if d == 7 {
        "7"
    } else if d == 8 {
        "8"
    } else if d == 9 {
        "9"
    } else if d == 10 {
        "a"
    } else if d == 11 {
        "b"
    } else if d == 12 {
        "c"
    } else if d == 13 {
        "d"
    } else if d == 14 {
        "e"
    } else {
        "f"
    };
    assert(s@ =~= seq![hex_char(d as nat)]);
    s
}

/// Appends the character at position `i` of `text` to `out` as it stands
/// inside a JSON string.
fn push_json_char(out: &mut String, text: &str, i: usize)
    requires
        i < text@.len() <= usize::MAX,
    ensures
        final(out)@ == old(out)@ + json_escape_of(text@[i as int]),
{
    let c = text.get_char(i);
    proof {
        reveal_strlit("\\\"");
        reveal_strlit("\\\\");
        reveal_strlit("\\b");
        reveal_strlit("\\t");
        reveal_strlit("\\n");
        reveal_strlit("\\f");
        reveal_strlit("\\r");
        reveal_strlit("\\u00");
    }
    if c == '"' {
        out.append("\\\"");
        assert(out@ =~= old(out)@ + json_escape_of(c));
    } else if c == '\\' {
        out.append("\\\\");
        assert(out@ =~= old(out)@ + json_escape_of(c));
    } else if c == '\u{8}' {
        out.append("\\b");
        assert(out@ =~= old(out)@ + json_escape_of(c));
    } else if c == '\t' {
        out.append("\\t");
        assert(out@ =~= old(out)@ + json_escape_of(c));
    } else if c == '\n' {
        out.append("\\n");
        assert(out@ =~= old(out)@ + json_escape_of(c));
    } else if c == '\u{c}' {
        out.append("\\f");
        assert(out@ =~= old(out)@ + json_escape_of(c));
    } else if c == '\r' {
        out.append("\\r");
        assert(out@ =~= old(out)@ + json_escape_of(c));
    } else if (c as u32) < 32 {
        let code: u32 = c as u32;
        out.append("\\u00");
        out.append(hex_str(code / 16));
        out.append(hex_str(code % 16));
        assert(out@ =~= old(out)@ + json_escape_of(c));
    } else {
        out.append(text.substring_char(i, i + 1));
        assert(text@.subrange(i as int, i + 1) =~= seq![c]);
        assert(out@ =~= old(out)@ + json_escape_of(c));
    }
}

/// Appends to `out` the JSON string that holds `text`.
pub fn push_json_string(out: &mut String, text: &str)
    ensures
        final(out)@ == old(out)@ + json_string_of(text@),
{
    proof {
        reveal_strlit("\"");
    }
    let len = text.unicode_len();
    out.append("\"");
    let ghost opened = out@;
    let mut i: usize = 0;
    assert(text@.take(0) =~= Seq::<char>::empty());
    assert(out@ =~= opened + json_escaped(text@.take(0)));
    while i < len
        invariant
            i <= len,
            len == text@.len(),
            opened == old(out)@ + seq!['"'],
            out@ == opened + json_escaped(text@.take(i as int)),
        decreases len - i,
    {
        proof {
            assert(text@.take(i + 1).drop_last() =~= text@.take(i as int));
            assert(text@.take(i + 1).last() == text@[i as int]);
        }
        push_json_char(out, text, i);
        assert(out@ =~= opened + json_escaped(text@.take(i + 1)));
        i += 1;
    }
    assert(text@.take(i as int) =~= text@);
    out.append("\"");
    assert(out@ =~= old(out)@ + json_string_of(text@));
}

/// The character is a hexadecimal digit.
pub open spec fn is_hex_char(c: char) -> bool {
    exists|d: nat| d < 16 && c == #[trigger] hex_char(d)
}

/// The character may follow a backslash inside a JSON string and make an
/// escape of two characters with it.
pub open spec fn is_escape_letter(c: char) -> bool {
    c == '"' || c == '\\' || c == '/' || c == 'b' || c == 'f' || c == 'n' || c == 'r' || c == 't'
}

/// The text is what the grammar of JSON admits between the two quotes of a
/// string: a run of characters that are no quote, no backslash and no
/// control character, of escapes of two characters, and of escapes of a
/// code in four hexadecimal digits.
pub open spec fn is_json_string_body(t: Seq<char>) -> bool
    decreases t.len(),
{
    if t.len() == 0 {
        true
    } else if t[0] == '\\' {
        if t.len() >= 2 && is_escape_letter(t[1]) {
            is_json_string_body(t.skip(2))
        } else {
            &&& t.len() >= 6
            &&& t[1] == 'u'
            &&& is_hex_char(t[2])
            &&& is_hex_char(t[3])
            &&& is_hex_char(t[4])
            &&& is_hex_char(t[5])
            &&& is_json_string_body(t.skip(6))
        }
    } else {
        t[0] != '"' && !is_control(t[0]) && is_json_string_body(t.skip(1))
    }
}

/// One string body after another is a string body.
pub proof fn lemma_string_bodies_join(a: Seq<char>, b: Seq<char>)
    requires
        is_json_string_body(a),
        is_json_string_body(b),
    ensures
        is_json_string_body(a + b),
    decreases a.len(),
{
    if a.len() == 0 {
        assert(a + b =~= b);
    } else if a[0] == '\\' {
        if a.len() >= 2 && is_escape_letter(a[1]) {
            lemma_string_bodies_join(a.skip(2), b);
            assert((a + b).skip(2) =~= a.skip(2) + b);
            assert((a + b)[1] == a[1]);
        } else {
            lemma_string_bodies_join(a.skip(6), b);
            assert((a + b).skip(6) =~= a.skip(6) + b);
            assert((a + b)[1] == a[1]);
            assert((a + b)[2] == a[2]);
            assert((a + b)[3] == a[3]);
            assert((a + b)[4] == a[4]);
            assert((a + b)[5] == a[5]);
        }
    } else {
        lemma_string_bodies_join(a.skip(1), b);
        assert((a + b).skip(1) =~= a.skip(1) + b);
    }
}

/// What stands for one character inside a JSON string is a string body.
pub proof fn lemma_escape_is_string_body(c: char)
    ensures
        is_json_string_body(json_escape_of(c)),
{
    let e = json_escape_of(c);
    let none = Seq::<char>::empty();
    assert(is_json_string_body(none));
    if c == '"' || c == '\\' || c == '\u{8}' || c == '\t' || c == '\n' || c == '\u{c}' || c
        == '\r' {
        assert(e.skip(2) =~= none);
        assert(is_escape_letter(e[1]));
    } else if is_control(c) {
        assert(e.skip(6) =~= none);
        assert(e[2] == hex_char(0));
        assert(e[3] == hex_char(0));
        assert((c as u32 / 16) < 16 && (c as u32 % 16) < 16);
        assert(!is_escape_letter(e[1]));
    } else {
        assert(e.skip(1) =~= none);
    }
}

/// Injection safety: whatever the text, its escaped form is what the
/// grammar of JSON admits between the quotes of a string. It holds no bare
/// quote and no control character, so the quote that follows it ends the
/// string.
pub proof fn lemma_escaped_is_string_body(s: Seq<char>)
    ensures
        is_json_string_body(json_escaped(s)),
    decreases s.len(),
{
    if s.len() > 0 {
        lemma_escaped_is_string_body(s.drop_last());
        lemma_escape_is_string_body(s.last());
        lemma_string_bodies_join(json_escaped(s.drop_last()), json_escape_of(s.last()));
    }
}

/// How many characters the first item of a string body takes.
pub open spec fn first_item_len(t: Seq<char>) -> int {
    if t.len() > 0 && t[0] == '\\' {
        if t.len() > 1 && is_escape_letter(t[1]) {
            2
        } else {
            6
        }
    } else {
        1
    }
}

/// The text that an escaped form stands for: item by item, the character
/// that is written as that item.
pub open spec fn json_unescaped(t: Seq<char>) -> Seq<char>
    decreases t.len(),
{
    let n = first_item_len(t);
    if t.len() == 0 || n > t.len() {
        Seq::<char>::empty()
    } else {
        seq![choose|c: char| json_escape_of(c) == t.take(n)] + json_unescaped(t.skip(n))
    }
}

/// Two characters that are written alike inside a JSON string are the same
/// character.
pub proof fn lemma_escape_tells_character(a: char, b: char)
    requires
        json_escape_of(a) == json_escape_of(b),
    ensures
        a == b,
{
    let ea = json_escape_of(a);
    let eb = json_escape_of(b);
    assert(ea.len() == eb.len());
    assert(ea[0] == eb[0]);
    if ea.len() >= 2 {
        assert(ea[1] == eb[1]);
    }
    if ea.len() == 6 {
        assert(ea[4] == eb[4]);
        assert(ea[5] == eb[5]);
        let ha = (a as u32 / 16) as nat;
        let hb = (b as u32 / 16) as nat;
        let la = (a as u32 % 16) as nat;
        let lb = (b as u32 % 16) as nat;
        assert(hex_char(ha) == hex_char(hb));
        assert(hex_char(la) == hex_char(lb));
        assert(ha < 16 && hb < 16 && la < 16 && lb < 16);
        assert(ha == hb && la == lb);
        assert(a as u32 == b as u32);
    }
}

/// The escaped form of a text begins with what stands for its first
/// character.
pub proof fn lemma_escaped_from_front(s: Seq<char>)
    requires
        s.len() > 0,
    ensures
        json_escaped(s) == json_escape_of(s[0]) + json_escaped(s.skip(1)),
    decreases s.len(),
{
    if s.len() == 1 {
        assert(s.drop_last() =~= Seq::<char>::empty());
        assert(s.skip(1) =~= Seq::<char>::empty());
        assert(json_escaped(s.drop_last()) =~= Seq::<char>::empty());
        assert(json_escaped(s) =~= json_escape_of(s[0]) + json_escaped(s.skip(1)));
    } else {
        let front = s.drop_last();
        lemma_escaped_from_front(front);
        assert(front.skip(1) =~= s.skip(1).drop_last());
        assert(s.skip(1).last() == s.last());
        assert(json_escaped(s) =~= json_escape_of(s[0]) + json_escaped(s.skip(1)));
    }
}

/// Nothing is lost: the escaped form of a text stands for that text and for
/// no other. So two texts with the same escaped form are the same text.
pub proof fn lemma_unescape_restores(s: Seq<char>)
    ensures
        json_unescaped(json_escaped(s)) == s,
    decreases s.len(),
{
    let t = json_escaped(s);
    if s.len() == 0 {
        assert(t =~= Seq::<char>::empty());
        assert(json_unescaped(t) =~= s);
    } else {
        let c = s[0];
        let e = json_escape_of(c);
        let rest = json_escaped(s.skip(1));
        lemma_escaped_from_front(s);
        lemma_unescape_restores(s.skip(1));
        assert(t == e + rest);
        assert(t[0] == e[0]);
        if e.len() >= 2 {
            assert(t[1] == e[1]);
        }
        let n = first_item_len(t);
        assert(n == e.len());
        assert(t.take(n) =~= e);
        assert(t.skip(n) =~= rest);
        let found = choose|x: char| json_escape_of(x) == t.take(n);
        assert(json_escape_of(c) == t.take(n));
        lemma_escape_tells_character(found, c);
        assert(json_unescaped(t) =~= seq![c] + s.skip(1));
        assert(seq![c] + s.skip(1) =~= s);
    }
}

} // verus!
