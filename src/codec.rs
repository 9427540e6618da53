//! The wire format of a list, stored whole in one subkey of its record.
//!
//! Layout: a format tag byte, then the title, then the entry count as a
//! big-endian `u64`, then each entry. A string is its UTF-8 byte length as a
//! big-endian `u64` followed by those bytes.
use vstd::prelude::*;
use vstd::utf8::*;
use crate::todo::{Todo, TodoModel, MAX_ITEMS};

verus! {

broadcast use vstd::seq_lib::group_seq_properties;

/// The format tag that leads every payload this library writes.
pub const FORMAT_VERSION: u8 = 1;

/// Why a payload could not be read back as a list.
#[derive(Debug, Clone, Copy, PartialEq, Eq)]
pub enum FormatError {
    /// The payload is empty or starts with another format tag.
    UnknownVersion,
    /// The payload ends inside a field, or holds bytes after the last entry.
    Truncated,
    /// A string field is not valid UTF-8.
    BadText,
    /// The payload claims more entries than a list may hold.
    TooManyItems,
}

/// The eight big-endian bytes of `n`.
pub open spec fn be_bytes(n: u64) -> Seq<u8> {
    seq![
        (n >> 56u64) as u8,
        (n >> 48u64) as u8,
        (n >> 40u64) as u8,
        (n >> 32u64) as u8,
        (n >> 24u64) as u8,
        (n >> 16u64) as u8,
        (n >> 8u64) as u8,
        n as u8,
    ]
}

/// The number whose big-endian bytes lead `b`.
pub open spec fn be_value(b: Seq<u8>) -> u64
    recommends
        b.len() >= 8,
{
    ((b[0] as u64) << 56u64) | ((b[1] as u64) << 48u64) | ((b[2] as u64) << 40u64) | ((
    b[3] as u64) << 32u64) | ((b[4] as u64) << 24u64) | ((b[5] as u64) << 16u64) | ((b[6] as u64)
        << 8u64) | (b[7] as u64)
}

/// A string field: its byte length, then its UTF-8 bytes.
pub open spec fn str_bytes(s: Seq<char>) -> Seq<u8> {
    be_bytes(encode_utf8(s).len() as u64) + encode_utf8(s)
}

/// The entry fields, one after another.
pub open spec fn items_bytes(c: Seq<Seq<char>>) -> Seq<u8>
    decreases c.len(),
{
    if c.len() == 0 {
        Seq::empty()
    } else {
        items_bytes(c.drop_last()) + str_bytes(c.last())
    }
}

/// The payload that stands for a list.
pub open spec fn todo_bytes(m: TodoModel) -> Seq<u8> {
    seq![FORMAT_VERSION] + str_bytes(m.title) + be_bytes(m.content.len() as u64) + items_bytes(
        m.content,
    )
}

/// Reads one string field from the front of `b`: the string and what follows it.
pub open spec fn parse_str(b: Seq<u8>) -> Option<(Seq<char>, Seq<u8>)> {
    if b.len() < 8 {
        None
    } else {
        let n = be_value(b) as int;
        if b.len() - 8 < n {
            None
        } else if !valid_utf8(b.subrange(8, 8 + n)) {
            None
        } else {
            Some((decode_utf8(b.subrange(8, 8 + n)), b.subrange(8 + n, b.len() as int)))
        }
    }
}

/// Reads `n` string fields from the front of `b`: the strings and what follows them.
pub open spec fn parse_items(b: Seq<u8>, n: nat) -> Option<(Seq<Seq<char>>, Seq<u8>)>
    decreases n,
{
    if n == 0 {
        Some((Seq::empty(), b))
    } else {
        match parse_str(b) {
            None => None,
            Some((s, rest)) => prepend(seq![s], parse_items(rest, (n - 1) as nat)),
        }
    }
}

/// `r` with `pre` put in front of the strings it read.
pub open spec fn prepend(pre: Seq<Seq<char>>, r: Option<(Seq<Seq<char>>, Seq<u8>)>) -> Option<
    (Seq<Seq<char>>, Seq<u8>),
> {
    match r {
        None => None,
        Some((ss, rest)) => Some((pre + ss, rest)),
    }
}

/// The list that a payload stands for, if it is well formed.
pub open spec fn parse_todo(b: Seq<u8>) -> Option<TodoModel> {
    if b.len() < 1 || b[0] != FORMAT_VERSION {
        None
    } else {
        match parse_str(b.drop_first()) {
            None => None,
            Some((title, rest)) => {
                if rest.len() < 8 || be_value(rest) > MAX_ITEMS as u64 {
                    None
                } else {
                    match parse_items(rest.subrange(8, rest.len() as int), be_value(rest) as nat) {
                        Some((content, tail)) => {
                            if tail.len() == 0 {
                                Some(TodoModel { title, content })
                            } else {
                                None
                            }
                        },
                        None => None,
                    }
                }
            },
        }
    }
}

/// The error that `decode` reports on `b`, where `parse_todo(b)` is `None`.
pub open spec fn format_error_of(b: Seq<u8>) -> FormatError {
    if b.len() < 1 || b[0] != FORMAT_VERSION {
        FormatError::UnknownVersion
    } else {
        match parse_str(b.drop_first()) {
            None => str_error_of(b.drop_first()),
            Some((title, rest)) => {
                if rest.len() < 8 {
                    FormatError::Truncated
                } else if be_value(rest) > MAX_ITEMS as u64 {
                    FormatError::TooManyItems
                } else {
                    items_error_of(rest.subrange(8, rest.len() as int), be_value(rest) as nat)
                }
            },
        }
    }
}

/// Why `parse_str(b)` fails.
pub open spec fn str_error_of(b: Seq<u8>) -> FormatError {
    if b.len() < 8 || b.len() - 8 < be_value(b) as int {
        FormatError::Truncated
    } else {
        FormatError::BadText
    }
}

/// Why reading `n` entries and then the end of `b` fails.
pub open spec fn items_error_of(b: Seq<u8>, n: nat) -> FormatError
    decreases n,
{
    if n == 0 {
        FormatError::Truncated
    } else {
        match parse_str(b) {
            None => str_error_of(b),
            Some((s, rest)) => items_error_of(rest, (n - 1) as nat),
        }
    }
}

proof fn lemma_be_round_trip(n: u64)
    ensures
        be_value(be_bytes(n)) == n,
{
    let b = be_bytes(n);
    assert(((((n >> 56u64) as u8) as u64) << 56u64) | ((((n >> 48u64) as u8) as u64) << 48u64) | ((
    ((n >> 40u64) as u8) as u64) << 40u64) | ((((n >> 32u64) as u8) as u64) << 32u64) | ((((n
        >> 24u64) as u8) as u64) << 24u64) | ((((n >> 16u64) as u8) as u64) << 16u64) | ((((n
        >> 8u64) as u8) as u64) << 8u64) | ((n as u8) as u64) == n) by (bit_vector);
}

proof fn lemma_be_prefix(n: u64, rest: Seq<u8>)
    ensures
        (be_bytes(n) + rest).len() >= 8,
        be_value(be_bytes(n) + rest) == n,
        (be_bytes(n) + rest).subrange(8, (be_bytes(n) + rest).len() as int) == rest,
{
    lemma_be_round_trip(n);
    let b = be_bytes(n) + rest;
    assert(b.subrange(8, b.len() as int) =~= rest);
    assert(be_value(b) == be_value(be_bytes(n)));
}

proof fn lemma_parse_str_bytes(s: Seq<char>, rest: Seq<u8>)
    requires
        encode_utf8(s).len() <= u64::MAX,
    ensures
        parse_str(str_bytes(s) + rest) == Some((s, rest)),
{
    let e = encode_utf8(s);
    let b = str_bytes(s) + rest;
    assert(b =~= be_bytes(e.len() as u64) + (e + rest));
    lemma_be_prefix(e.len() as u64, e + rest);
    let n = e.len() as int;
    assert(b.subrange(8, 8 + n) =~= e);
    assert(b.subrange(8 + n, b.len() as int) =~= rest);
    encode_utf8_valid_utf8(s);
    encode_utf8_decode_utf8(s);
}

proof fn lemma_items_bytes_front(c: Seq<Seq<char>>)
    requires
        c.len() > 0,
    ensures
        items_bytes(c) == str_bytes(c[0]) + items_bytes(c.drop_first()),
    decreases c.len(),
{
    if c.len() == 1 {
        assert(c.drop_last() =~= Seq::<Seq<char>>::empty());
        assert(c.drop_first() =~= Seq::<Seq<char>>::empty());
        assert(items_bytes(c.drop_last()) =~= Seq::<u8>::empty());
        assert(items_bytes(c.drop_first()) =~= Seq::<u8>::empty());
        assert(items_bytes(c) =~= str_bytes(c[0]));
    } else {
        lemma_items_bytes_front(c.drop_last());
        assert(c.drop_last().drop_first() =~= c.drop_first().drop_last());
        assert(c.drop_first().last() == c.last());
        assert(items_bytes(c.drop_first()) == items_bytes(c.drop_first().drop_last()) + str_bytes(
            c.last(),
        ));
        assert(items_bytes(c) =~= str_bytes(c[0]) + items_bytes(c.drop_first()));
    }
}

proof fn lemma_parse_items_bytes(c: Seq<Seq<char>>, rest: Seq<u8>)
    requires
        forall|i: int| 0 <= i < c.len() ==> encode_utf8(#[trigger] c[i]).len() <= u64::MAX,
    ensures
        parse_items(items_bytes(c) + rest, c.len()) == Some((c, rest)),
    decreases c.len(),
{
    if c.len() == 0 {
        assert(items_bytes(c) + rest =~= rest);
        assert(c =~= Seq::<Seq<char>>::empty());
    } else {
        lemma_items_bytes_front(c);
        let tail = c.drop_first();
        assert forall|i: int| 0 <= i < tail.len() implies encode_utf8(#[trigger] tail[i]).len()
            <= u64::MAX by {
            assert(tail[i] == c[i + 1]);
        }
        lemma_parse_items_bytes(tail, rest);
        assert(items_bytes(c) + rest =~= str_bytes(c[0]) + (items_bytes(tail) + rest));
        lemma_parse_str_bytes(c[0], items_bytes(tail) + rest);
        assert(seq![c[0]] + tail =~= c);
    }
}

/// Each string of `m` has a UTF-8 length that a length field can hold, as
/// every string in memory does.
pub open spec fn encodable(m: TodoModel) -> bool {
    &&& encode_utf8(m.title).len() <= u64::MAX
    &&& forall|i: int|
        0 <= i < m.content.len() ==> encode_utf8(#[trigger] m.content[i]).len() <= u64::MAX
}

/// Every list that can be written is read back exactly: its payload parses to
/// the same title and the same entries in the same order, empty lists included.
pub proof fn lemma_decode_encode(m: TodoModel)
    requires
        m.wf(),
        encodable(m),
    ensures
        parse_todo(todo_bytes(m)) == Some(m),
{
    let b = todo_bytes(m);
    let n = m.content.len() as u64;
    let after_title = be_bytes(n) + items_bytes(m.content);
    assert(b.drop_first() =~= str_bytes(m.title) + after_title);
    lemma_parse_str_bytes(m.title, after_title);
    lemma_be_prefix(n, items_bytes(m.content));
    assert(items_bytes(m.content) =~= items_bytes(m.content) + Seq::<u8>::empty());
    lemma_parse_items_bytes(m.content, Seq::empty());
}

/// Relies on std::str::from_utf8: it accepts exactly the valid UTF-8 byte
/// strings, and the text it gives holds the characters those bytes encode.
#[verifier::external_body]
fn utf8_text(b: &[u8]) -> (r: Option<String>)
    ensures
        r is Some <==> valid_utf8(b@),
        r is Some ==> r->0@ == decode_utf8(b@),
{
    std::str::from_utf8(b).ok().map(String::from)
}

fn push_be(out: &mut Vec<u8>, n: u64)
    ensures
        final(out)@ == old(out)@ + be_bytes(n),
{
    out.push((n >> 56u64) as u8);
    out.push((n >> 48u64) as u8);
    out.push((n >> 40u64) as u8);
    out.push((n >> 32u64) as u8);
    out.push((n >> 24u64) as u8);
    out.push((n >> 16u64) as u8);
    out.push((n >> 8u64) as u8);
    out.push(n as u8);
    assert(final(out)@ =~= old(out)@ + be_bytes(n));
}

fn push_str(out: &mut Vec<u8>, s: &String)
    ensures
        final(out)@ == old(out)@ + str_bytes(s@),
{
    let bytes = s.as_str().as_bytes();
    push_be(out, bytes.len() as u64);
    let ghost mid = out@;
    let mut i: usize = 0;
    while i < bytes.len()
        invariant
            0 <= i <= bytes@.len(),
            bytes@ == encode_utf8(s@),
            mid == old(out)@ + be_bytes(bytes@.len() as u64),
            out@ == mid + bytes@.subrange(0, i as int),
        decreases bytes@.len() - i,
    {
        out.push(bytes[i]);
        i = i + 1;
        assert(out@ =~= mid + bytes@.subrange(0, i as int));
    }
    assert(bytes@.subrange(0, i as int) =~= bytes@);
    assert(out@ =~= old(out)@ + str_bytes(s@));
}

/// The payload that stands for `t`.
pub fn encode(t: &Todo) -> (r: Vec<u8>)
    requires
        t.wf(),
    ensures
        r@ == todo_bytes(t@),
{
    let mut out: Vec<u8> = Vec::new();
    out.push(FORMAT_VERSION);
    push_str(&mut out, &t.title);
    push_be(&mut out, t.content.len() as u64);
    let ghost head = out@;
    let mut i: usize = 0;
    while i < t.content.len()
        invariant
            0 <= i <= t.content@.len(),
            head == seq![FORMAT_VERSION] + str_bytes(t@.title) + be_bytes(
                t.content@.len() as u64,
            ),
            out@ == head + items_bytes(t@.content.subrange(0, i as int)),
        decreases t.content@.len() - i,
    {
        push_str(&mut out, &t.content[i]);
        proof {
            let c = t@.content.subrange(0, i + 1);
            assert(c.drop_last() =~= t@.content.subrange(0, i as int));
            assert(c.last() == t.content@[i as int]@);
        }
        i = i + 1;
        assert(out@ =~= head + items_bytes(t@.content.subrange(0, i as int)));
    }
    assert(t@.content.subrange(0, i as int) =~= t@.content);
    assert(out@ =~= todo_bytes(t@));
    out
}

fn read_be(b: &[u8], pos: usize) -> (r: u64)
    requires
        pos + 8 <= b@.len(),
    ensures
        r == be_value(b@.subrange(pos as int, b@.len() as int)),
{
    ((b[pos] as u64) << 56u64) | ((b[pos + 1] as u64) << 48u64) | ((b[pos + 2] as u64) << 40u64)
        | ((b[pos + 3] as u64) << 32u64) | ((b[pos + 4] as u64) << 24u64) | ((b[pos + 5] as u64)
        << 16u64) | ((b[pos + 6] as u64) << 8u64) | (b[pos + 7] as u64)
}

fn read_str(b: &[u8], pos: usize) -> (r: Result<(String, usize), FormatError>)
    requires
        pos <= b@.len(),
    ensures
        ({
            let rem = b@.subrange(pos as int, b@.len() as int);
            match r {
                Ok((s, p)) => pos <= p <= b@.len() && parse_str(rem) == Some(
                    (s@, b@.subrange(p as int, b@.len() as int)),
                ),
                Err(e) => parse_str(rem) is None && e == str_error_of(rem),
            }
        }),
{
    let ghost rem = b@.subrange(pos as int, b@.len() as int);
    if b.len() - pos < 8 {
        return Err(FormatError::Truncated);
    }
    let n = read_be(b, pos);
    if ((b.len() - pos - 8) as u64) < n {
        return Err(FormatError::Truncated);
    }
    let start = pos + 8;
    let end = start + n as usize;
    let body = &b[start..end];
    assert(body@ =~= rem.subrange(8, 8 + n as int));
    match utf8_text(body) {
        Some(s) => {
            assert(b@.subrange(end as int, b@.len() as int) =~= rem.subrange(
                8 + n as int,
                rem.len() as int,
            ));
            Ok((s, end))
        },
        None => Err(FormatError::BadText),
    }
}

/// Reads a payload back as a list. It succeeds exactly on well-formed
/// payloads, and then gives the list they stand for.
pub fn decode(b: &[u8]) -> (r: Result<Todo, FormatError>)
    ensures
        match r {
            Ok(t) => parse_todo(b@) == Some(t@) && t.wf(),
            Err(e) => parse_todo(b@) is None && e == format_error_of(b@),
        },
{
    if b.len() < 1 || b[0] != FORMAT_VERSION {
        return Err(FormatError::UnknownVersion);
    }
    assert(b@.subrange(1, b@.len() as int) =~= b@.drop_first());
    let (title, pos) = match read_str(b, 1) {
        Ok(x) => x,
        Err(e) => return Err(e),
    };
    let ghost rest = b@.subrange(pos as int, b@.len() as int);
    if b.len() - pos < 8 {
        return Err(FormatError::Truncated);
    }
    let n = read_be(b, pos);
    if n > MAX_ITEMS as u64 {
        return Err(FormatError::TooManyItems);
    }
    let mut pos = pos + 8;
    assert(b@.subrange(pos as int, b@.len() as int) =~= rest.subrange(8, rest.len() as int));
    let ghost whole = parse_items(rest.subrange(8, rest.len() as int), n as nat);
    let ghost first = rest.subrange(8, rest.len() as int);
    let ghost title_v = title@;
    assert(format_error_of(b@) == items_error_of(first, n as nat));
    assert(parse_todo(b@) == match whole {
        Some((c, tail)) => if tail.len() == 0 { Some(TodoModel { title: title_v, content: c }) } else { None },
        None => None,
    });
    let mut content: Vec<String> = Vec::new();
    let mut i: u64 = 0;
    while i < n
        invariant
            i <= n <= MAX_ITEMS,
            title@ == title_v,
            format_error_of(b@) == items_error_of(first, n as nat),
            parse_todo(b@) == match whole {
                Some((c, tail)) => if tail.len() == 0 { Some(TodoModel { title: title_v, content: c }) } else { None },
                None => None,
            },
            pos <= b@.len(),
            content@.len() == i,
            whole == parse_items(first, n as nat),
            whole == prepend(
                content@.map_values(|s: String| s@),
                parse_items(b@.subrange(pos as int, b@.len() as int), (n - i) as nat),
            ),
            items_error_of(first, n as nat) == items_error_of(
                b@.subrange(pos as int, b@.len() as int),
                (n - i) as nat,
            ),
        decreases n - i,
    {
        let ghost rem = b@.subrange(pos as int, b@.len() as int);
        let ghost before = content@.map_values(|s: String| s@);
        match read_str(b, pos) {
            Ok((s, p)) => {
                proof {
                    let after = b@.subrange(p as int, b@.len() as int);
                    let k = (n - i - 1) as nat;
                    assert(parse_items(rem, (n - i) as nat) == prepend(
                        seq![s@],
                        parse_items(after, k),
                    ));
                    assert(before.push(s@) =~= before + seq![s@]);
                    match parse_items(after, k) {
                        None => {},
                        Some((ss, t)) => {
                            assert(before + (seq![s@] + ss) =~= (before + seq![s@]) + ss);
                        },
                    }
                }
                content.push(s);
                assert(content@.map_values(|s: String| s@) =~= before.push(s@));
                pos = p;
            },
            Err(e) => {
                assert(parse_items(rem, (n - i) as nat) is None);
                assert(items_error_of(rem, (n - i) as nat) == e);
                assert(whole is None);
                return Err(e);
            },
        }
        i = i + 1;
    }
    assert(parse_items(b@.subrange(pos as int, b@.len() as int), 0) == Some(
        (Seq::<Seq<char>>::empty(), b@.subrange(pos as int, b@.len() as int)),
    ));
    assert(content@.map_values(|s: String| s@) + Seq::<Seq<char>>::empty() =~= content@.map_values(
        |s: String| s@,
    ));
    if pos < b.len() {
        return Err(FormatError::Truncated);
    }
    let t = Todo { title, content };
    assert(t@.content == content@.map_values(|s: String| s@));
    Ok(t)
}

} // verus!
