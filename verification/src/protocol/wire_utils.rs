//! The wire format: what a message's arguments look like as bytes.
//!
//! Every argument is made of 32-bit words in the byte order of the machines
//! this runs on, least significant byte first. A string is a word giving its
//! length with the null that ends it, the bytes, the null, and padding up to
//! the next whole word.
use crate::input::frames::unsigned;
use vstd::prelude::*;
use vstd::string::*;
use vstd::utf8::{decode_utf8, encode_utf8, encode_utf8_decode_utf8, encode_utf8_valid_utf8, valid_utf8};

verus! {

/// One request from one client: an object, an operation on it, and the bytes
/// of the arguments.
pub struct ClientMessage {
    /// The client the request came from
    pub client_id: u32,
    /// The object being acted upon
    pub object_id: u32,
    /// The operation
    pub op_code: u16,
    /// The arguments, still bytes
    pub args: Vec<u8>,
}

/// One argument of an event.
#[derive(Clone)]
pub enum Arg {
    /// A signed number
    Int(i32),
    /// An unsigned number, or the id of an object
    Uint(u32),
    /// The id of an object, or null
    Object(Option<u32>),
    /// A string
    Str(String),
}

/// What an argument says.
#[verifier::ext_equal]
pub enum ArgView {
    Int(i32),
    Uint(u32),
    Object(Option<u32>),
    Str(Seq<char>),
}

impl View for Arg {
    type V = ArgView;

    open spec fn view(&self) -> ArgView {
        match self {
            Arg::Int(n) => ArgView::Int(*n),
            Arg::Uint(n) => ArgView::Uint(*n),
            Arg::Object(id) => ArgView::Object(*id),
            Arg::Str(s) => ArgView::Str(s@),
        }
    }
}

/// The word that starts at a byte.
pub open spec fn le32(b: Seq<u8>, at: int) -> u32 {
    (b[at] as int + 256 * (b[at + 1] as int) + 65536 * (b[at + 2] as int) + 16777216 * (b[at + 3] as int)) as u32
}

/// The bytes of a word.
pub open spec fn word_bytes(n: u32) -> Seq<u8> {
    seq![
        (n as int % 256) as u8,
        (n as int / 256 % 256) as u8,
        (n as int / 65536 % 256) as u8,
        (n as int / 16777216 % 256) as u8,
    ]
}

/// A signed number as the word that carries it.
pub open spec fn as_word(n: i32) -> u32 {
    if n >= 0 {
        n as u32
    } else {
        (n + 0x1_0000_0000) as u32
    }
}

/// The signed number a word carries.
pub open spec fn as_signed(n: u32) -> i32 {
    if n < 0x8000_0000 {
        n as i32
    } else {
        (n - 0x1_0000_0000) as i32
    }
}

/// A length rounded up to whole words.
pub open spec fn padded(n: int) -> int {
    (n + 3) / 4 * 4
}

/// The word at a byte of some arguments, if they reach that far.
pub open spec fn word_at(b: Seq<u8>, at: int) -> Option<u32> {
    if 0 <= at && at + 4 <= b.len() {
        Some(le32(b, at))
    } else {
        None
    }
}

/// The string at a byte of some arguments, and the byte after it.
pub open spec fn string_at(b: Seq<u8>, at: int) -> Option<(Seq<char>, int)> {
    match word_at(b, at) {
        None => None,
        Some(n) => if n == 0 || at + 4 + padded(n as int) > b.len() {
            None
        } else {
            let bytes = b.subrange(at + 4, at + 4 + n - 1);
            if valid_utf8(bytes) {
                Some((decode_utf8(bytes), at + 4 + padded(n as int)))
            } else {
                None
            }
        },
    }
}

/// An argument as bytes.
pub open spec fn arg_bytes(a: ArgView) -> Seq<u8> {
    match a {
        ArgView::Int(n) => word_bytes(as_word(n)),
        ArgView::Uint(n) => word_bytes(n),
        ArgView::Object(id) => word_bytes(match id {
            Some(n) => n,
            None => 0,
        }),
        ArgView::Str(s) => {
            let bytes = encode_utf8(s);
            let n = bytes.len() + 1;
            word_bytes(n as u32) + bytes + Seq::new((padded(n as int) - bytes.len()) as nat, |i: int| 0u8)
        },
    }
}

/// Arguments as bytes, one after another.
pub open spec fn args_bytes(args: Seq<ArgView>) -> Seq<u8>
    decreases args.len(),
{
    if args.len() == 0 {
        Seq::empty()
    } else {
        args_bytes(args.drop_last()) + arg_bytes(args.last())
    }
}

/// Whether an argument's length fits the word that carries it.
pub open spec fn fits(a: ArgView) -> bool {
    match a {
        ArgView::Str(s) => encode_utf8(s).len() < 0x7fff_fff0,
        _ => true,
    }
}

/// The string a run of bytes spells, which is `String::from_utf8` of the
/// standard library: the text if the bytes are valid UTF-8, and nothing if
/// they are not.
#[verifier::external_body]
fn utf8_text(bytes: Vec<u8>) -> (r: Option<String>)
    ensures
        match r {
            Some(s) => valid_utf8(bytes@) && s@ == decode_utf8(bytes@),
            None => !valid_utf8(bytes@),
        },
{
    String::from_utf8(bytes).ok()
}

impl ClientMessage {
    /// The unsigned number in a word of the arguments.
    pub open spec fn word(&self, i: int) -> Option<u32> {
        word_at(self.args@, 4 * i)
    }

    /// The signed number in a word of the arguments.
    pub open spec fn number(&self, i: int) -> Option<i32> {
        match self.word(i) {
            Some(n) => Some(as_signed(n)),
            None => None,
        }
    }

    /// Read the word that starts at a byte.
    pub fn read(&self, at: usize) -> (r: Option<u32>)
        ensures
            r == word_at(self.args@, at as int),
    {
        if at > self.args.len() || self.args.len() - at < 4 {
            return None;
        }
        let n: u32 = self.args[at] as u32 + 256 * (self.args[at + 1] as u32) + 65536 * (self.args[at + 2] as u32)
            + 16777216 * (self.args[at + 3] as u32);
        Some(n)
    }

    /// Read an unsigned number or an id.
    pub fn unsigned(&self, i: usize) -> (r: Option<u32>)
        ensures
            r == self.word(i as int),
    {
        let len: usize = self.args.len();
        if i > len / 4 {
            return None;
        }
        self.read(4 * i)
    }

    /// Read a signed number.
    pub fn signed(&self, i: usize) -> (r: Option<i32>)
        ensures
            r == self.number(i as int),
    {
        match self.unsigned(i) {
            Some(n) => Some(
                if n < 0x8000_0000 {
                    n as i32
                } else {
                    (n as i64 - 0x1_0000_0000i64) as i32
                },
            ),
            None => None,
        }
    }

    /// Read the string that starts at a byte, and say where it ends.
    pub fn string(&self, at: usize) -> (r: Option<(String, usize)>)
        ensures
            match r {
                Some((s, end)) => string_at(self.args@, at as int) == Some((s@, end as int)),
                None => string_at(self.args@, at as int) is None,
            },
            match r {
                Some((s, end)) => end <= self.args@.len(),
                None => true,
            },
    {
        let n: u32 = match self.read(at) {
            Some(n) => n,
            None => {
                return None;
            },
        };
        if n == 0 {
            return None;
        }
        let words: u64 = (n as u64 + 3) / 4;
        let room: usize = self.args.len() - at - 4;
        if words * 4 > room as u64 {
            return None;
        }
        let end: usize = at + 4 + (words * 4) as usize;
        let stop: usize = at + 4 + (n as usize) - 1;
        let mut bytes: Vec<u8> = Vec::new();
        let mut i: usize = at + 4;
        while i < stop
            invariant
                at + 4 <= i <= stop,
                stop <= self.args@.len(),
                bytes@ == self.args@.subrange(at + 4, i as int),
            decreases stop - i,
        {
            bytes.push(self.args[i]);
            i += 1;
            proof {
                assert(bytes@ =~= self.args@.subrange(at + 4, i as int));
            }
        }
        match utf8_text(bytes) {
            Some(s) => Some((s, end)),
            None => None,
        }
    }
}

/// Add the bytes of a word.
pub fn push_word(out: &mut Vec<u8>, n: u32)
    ensures
        final(out)@ == old(out)@ + word_bytes(n),
{
    out.push((n % 256) as u8);
    out.push((n / 256 % 256) as u8);
    out.push((n / 65536 % 256) as u8);
    out.push((n / 16777216 % 256) as u8);
    proof {
        assert(out@ =~= old(out)@ + word_bytes(n));
    }
}

fn push_arg(out: &mut Vec<u8>, arg: &Arg)
    requires
        fits(arg@),
    ensures
        final(out)@ == old(out)@ + arg_bytes(arg@),
{
    match arg {
        Arg::Int(n) => {
            let n: i32 = *n;
            push_word(
                out,
                if n >= 0 {
                    n as u32
                } else {
                    (n as i64 + 0x1_0000_0000i64) as u32
                },
            );
        },
        Arg::Uint(n) => push_word(out, *n),
        Arg::Object(id) => push_word(
            out,
            match id {
                Some(n) => *n,
                None => 0,
            },
        ),
        Arg::Str(s) => {
            let bytes = s.as_str().as_bytes_vec();
            let n: usize = bytes.len() + 1;
            push_word(out, n as u32);
            let ghost head = out@;
            let mut i: usize = 0;
            while i < bytes.len()
                invariant
                    i <= bytes@.len(),
                    out@ == head + bytes@.take(i as int),
                decreases bytes@.len() - i,
            {
                out.push(bytes[i]);
                i += 1;
                proof {
                    assert(bytes@.take(i as int) =~= bytes@.take(i - 1).push(bytes@[i - 1]));
                    assert(out@ =~= head + bytes@.take(i as int));
                }
            }
            proof {
                assert(bytes@.take(i as int) =~= bytes@);
            }
            let ghost body = out@;
            let fill: usize = (n + 3) / 4 * 4 - (n - 1);
            let mut j: usize = 0;
            while j < fill
                invariant
                    j <= fill,
                    out@ == body + Seq::new(j as nat, |k: int| 0u8),
                decreases fill - j,
            {
                out.push(0);
                j += 1;
                proof {
                    assert(out@ =~= body + Seq::new(j as nat, |k: int| 0u8));
                }
            }
            proof {
                assert(out@ =~= old(out)@ + arg_bytes(arg@));
            }
        },
    }
}

/// The arguments an event carries, as they are read by contracts.
pub open spec fn args_view(args: Seq<Arg>) -> Seq<ArgView> {
    args.map_values(|a: Arg| a@)
}

/// Write an event's arguments as bytes.
pub fn encode_args(args: &Vec<Arg>) -> (r: Vec<u8>)
    requires
        forall|i: int| 0 <= i < args@.len() ==> fits(#[trigger] args@[i]@),
    ensures
        r@ == args_bytes(args_view(args@)),
{
    let mut out: Vec<u8> = Vec::new();
    let mut i: usize = 0;
    while i < args.len()
        invariant
            i <= args@.len(),
            out@ == args_bytes(args_view(args@.take(i as int))),
            forall|j: int| 0 <= j < args@.len() ==> fits(#[trigger] args@[j]@),
        decreases args@.len() - i,
    {
        push_arg(&mut out, &args[i]);
        i += 1;
        proof {
            let now = args_view(args@.take(i as int));
            assert(now.drop_last() =~= args_view(args@.take(i - 1)));
            assert(now.last() == args@[i - 1]@);
        }
    }
    proof {
        assert(args@.take(i as int) =~= args@);
    }
    out
}

/// A word reads back as the word that was written, wherever it stands.
pub proof fn lemma_word_round_trip(head: Seq<u8>, n: u32, tail: Seq<u8>)
    ensures
        word_at(head + word_bytes(n) + tail, head.len() as int) == Some(n),
{
    let b = head + word_bytes(n) + tail;
    let at = head.len() as int;
    assert(b[at] == word_bytes(n)[0]);
    assert(b[at + 1] == word_bytes(n)[1]);
    assert(b[at + 2] == word_bytes(n)[2]);
    assert(b[at + 3] == word_bytes(n)[3]);
    let m = n as int;
    assert(m % 256 + 256 * (m / 256 % 256) + 65536 * (m / 65536 % 256) + 16777216 * (m / 16777216 % 256) == m) by (nonlinear_arith)
        requires
            0 <= m < 0x1_0000_0000,
    ;
}

/// A signed number reads back as the number that was written.
pub proof fn lemma_number_round_trip(n: i32)
    ensures
        as_signed(as_word(n)) == n,
{
}

/// A string reads back as the string that was written, wherever it stands,
/// and reading goes on from the byte after it.
pub proof fn lemma_string_round_trip(head: Seq<u8>, s: Seq<char>, tail: Seq<u8>)
    requires
        fits(ArgView::Str(s)),
    ensures
        string_at(head + arg_bytes(ArgView::Str(s)) + tail, head.len() as int) == Some(
            (s, (head + arg_bytes(ArgView::Str(s))).len() as int),
        ),
{
    let body = arg_bytes(ArgView::Str(s));
    let b = head + body + tail;
    let at = head.len() as int;
    let bytes = encode_utf8(s);
    let n = bytes.len() + 1;
    let fill = Seq::new((padded(n as int) - bytes.len()) as nat, |i: int| 0u8);
    assert(b =~= head + word_bytes(n as u32) + (bytes + fill + tail));
    lemma_word_round_trip(head, n as u32, bytes + fill + tail);
    assert(b.subrange(at + 4, at + 4 + n - 1) =~= bytes);
    encode_utf8_valid_utf8(s);
    encode_utf8_decode_utf8(s);
    assert(body.len() == 4 + padded(n as int));
}

} // verus!
