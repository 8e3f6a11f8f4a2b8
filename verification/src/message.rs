//! Chat messages and the line-oriented protocol's two fixed words: the
//! sentinel command that requests shutdown and the closing notice that is
//! broadcast in response.

use vstd::prelude::*;

verus! {

/// A client's network identity: IPv4 address and TCP port, as plain numbers.
#[derive(Clone, Copy, PartialEq, Eq, Structural, Debug)]
pub struct Addr {
    pub ip: u32,
    pub port: u16,
}

/// One chat message: a line of bytes together with the sender's address.
#[derive(Debug)]
pub struct Message {
    pub text: Vec<u8>,
    pub origin: Addr,
}

/// Mathematical value of a message.
#[verifier::ext_equal]
pub ghost struct MsgView {
    pub text: Seq<u8>,
    pub origin: Addr,
}

impl View for Message {
    type V = MsgView;

    open spec fn view(&self) -> MsgView {
        MsgView { text: self.text@, origin: self.origin }
    }
}

impl Message {
    /// An independent copy of the message, byte for byte.
    pub fn duplicate(&self) -> (r: Message)
        ensures
            r@ == self@,
    {
        Message { text: copy_bytes(&self.text), origin: self.origin }
    }
}

/// An independent copy of a byte vector.
pub fn copy_bytes(b: &Vec<u8>) -> (r: Vec<u8>)
    ensures
        r@ == b@,
{
    let mut r: Vec<u8> = Vec::new();
    let mut i: usize = 0;
    while i < b.len()
        invariant
            i <= b.len(),
            r@ == b@.subrange(0, i as int),
        decreases b.len() - i,
    {
        r.push(b[i]);
        i = i + 1;
        proof {
            assert(r@ =~= b@.subrange(0, i as int));
        }
    }
    proof {
        assert(r@ =~= b@);
    }
    r
}

/// Whether two byte vectors hold the same bytes.
pub fn bytes_eq(a: &Vec<u8>, b: &Vec<u8>) -> (r: bool)
    ensures
        r == (a@ == b@),
{
    if a.len() != b.len() {
        return false;
    }
    let mut i: usize = 0;
    while i < a.len()
        invariant
            i <= a.len(),
            a@.len() == b@.len(),
            forall|k: int| 0 <= k < i ==> a@[k] == b@[k],
        decreases a.len() - i,
    {
        if a[i] != b[i] {
            return false;
        }
        i = i + 1;
    }
    proof {
        assert(a@ =~= b@);
    }
    true
}

/// The sentinel command: a line whose trimmed content is exactly this word
/// asks the whole chat to shut down.
pub open spec fn close_word() -> Seq<u8> {
    seq![99u8, 108u8, 111u8, 115u8, 101u8]
}

/// The fixed closing notice that is broadcast to every client when the
/// sentinel command is seen.
pub open spec fn closing_notice() -> Seq<u8> {
    seq![
        67u8, 108u8, 111u8, 115u8, 105u8, 110u8, 103u8, 32u8, 116u8, 104u8, 101u8, 32u8,
        84u8, 67u8, 80u8, 32u8, 99u8, 104u8, 97u8, 116u8, 46u8, 10u8,
    ]
}

/// The bytes a line's trim step removes: blanks, tabs and line terminators.
pub open spec fn is_line_ws(b: u8) -> bool {
    b == 32 || b == 9 || b == 13 || b == 10
}

/// A byte sequence with its leading whitespace removed.
pub open spec fn trim_front(s: Seq<u8>) -> Seq<u8>
    decreases s.len(),
{
    if s.len() > 0 && is_line_ws(s[0]) {
        trim_front(s.subrange(1, s.len() as int))
    } else {
        s
    }
}

/// A byte sequence with its trailing whitespace removed.
pub open spec fn trim_back(s: Seq<u8>) -> Seq<u8>
    decreases s.len(),
{
    if s.len() > 0 && is_line_ws(s[s.len() - 1]) {
        trim_back(s.subrange(0, s.len() - 1))
    } else {
        s
    }
}

/// A byte sequence with whitespace removed from both ends.
pub open spec fn trimmed(s: Seq<u8>) -> Seq<u8> {
    trim_back(trim_front(s))
}

/// The fixed closing notice as a fresh byte vector.
pub fn closing_notice_line() -> (r: Vec<u8>)
    ensures
        r@ == closing_notice(),
{
    let mut r: Vec<u8> = Vec::new();
    r.push(67);
    r.push(108);
    r.push(111);
    r.push(115);
    r.push(105);
    r.push(110);
    r.push(103);
    r.push(32);
    r.push(116);
    r.push(104);
    r.push(101);
    r.push(32);
    r.push(84);
    r.push(67);
    r.push(80);
    r.push(32);
    r.push(99);
    r.push(104);
    r.push(97);
    r.push(116);
    r.push(46);
    r.push(10);
    proof {
        assert(r@ =~= closing_notice());
    }
    r
}

/// Whether this text is exactly the closing notice.
pub fn is_closing_notice(text: &Vec<u8>) -> (r: bool)
    ensures
        r == (text@ == closing_notice()),
{
    let notice = closing_notice_line();
    bytes_eq(text, &notice)
}

/// Whether this line, with surrounding whitespace trimmed away, is exactly
/// the sentinel command.
pub fn is_close_line(line: &Vec<u8>) -> (r: bool)
    ensures
        r == (trimmed(line@) == close_word()),
{
    let n = line.len();
    proof {
        assert(line@.subrange(0, n as int) =~= line@);
    }
    let mut i: usize = 0;
    while i < n && line_ws(line[i])
        invariant
            n == line@.len(),
            i <= n,
            trim_front(line@) == trim_front(line@.subrange(i as int, n as int)),
        decreases n - i,
    {
        proof {
            let s = line@.subrange(i as int, n as int);
            assert(s[0] == line@[i as int]);
            assert(s.subrange(1, s.len() as int) =~= line@.subrange(i as int + 1, n as int));
        }
        i = i + 1;
    }
    proof {
        if i < n {
            assert(trim_front(line@) =~= line@.subrange(i as int, n as int));
        } else {
            assert(line@.subrange(i as int, n as int) =~= Seq::<u8>::empty());
        }
    }
    let mut j: usize = n;
    while j > i && line_ws(line[j - 1])
        invariant
            n == line@.len(),
            i <= j <= n,
            trim_front(line@) == trim_front(line@.subrange(i as int, n as int)),
            trim_back(line@.subrange(i as int, n as int)) == trim_back(
                line@.subrange(i as int, j as int),
            ),
        decreases j,
    {
        proof {
            let s = line@.subrange(i as int, j as int);
            assert(s[s.len() - 1] == line@[j - 1]);
            assert(s.subrange(0, s.len() - 1) =~= line@.subrange(i as int, j as int - 1));
        }
        j = j - 1;
    }
    proof {
        let t = line@.subrange(i as int, j as int);
        if j > i {
            assert(t[t.len() - 1] == line@[j - 1]);
            assert(trim_back(t) == t);
        } else {
            assert(t =~= Seq::<u8>::empty());
        }
        assert(trimmed(line@) == line@.subrange(i as int, j as int));
    }
    if j - i != 5 {
        proof {
            assert(trimmed(line@).len() != close_word().len());
        }
        return false;
    }
    let r = line[i] == 99 && line[i + 1] == 108 && line[i + 2] == 111 && line[i + 3] == 115
        && line[i + 4] == 101;
    proof {
        let t = line@.subrange(i as int, j as int);
        if r {
            assert(t =~= close_word());
        } else {
            assert(t != close_word());
        }
    }
    r
}

/// Whether this byte is removed by the line trim step.
pub fn line_ws(b: u8) -> (r: bool)
    ensures
        r == is_line_ws(b),
{
    b == 32 || b == 9 || b == 13 || b == 10
}

} // verus!
