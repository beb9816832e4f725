use vstd::prelude::*;
use vstd::string::StringSliceAdditionalSpecFns;
use vstd::utf8::encode_utf8;

use crate::entry_model::{Entry, EntryView, views_of};

verus! {

/// The byte of the lower-case hexadecimal digit for a value below sixteen.
pub open spec fn hex_digit(n: int) -> u8 {
    if n < 10 {
        (48 + n) as u8
    } else {
        (87 + n) as u8
    }
}

/// JSON escape of one byte of UTF-8 text: a quote or a backslash gets a
/// backslash before it, a control byte becomes `\u00XX`, and every other
/// byte stands unchanged (bytes of a multi-byte character pass through).
pub open spec fn escaped_byte(b: u8) -> Seq<u8> {
    if b == 34 {
        seq![92u8, 34u8]
    } else if b == 92 {
        seq![92u8, 92u8]
    } else if b < 32 {
        seq![92u8, 117u8, 48u8, 48u8, hex_digit(b as int / 16), hex_digit(b as int % 16)]
    } else {
        seq![b]
    }
}

/// JSON escape of a byte string.
pub open spec fn escaped(s: Seq<u8>) -> Seq<u8>
    decreases s.len(),
{
    if s.len() == 0 {
        Seq::empty()
    } else {
        escaped_byte(s[0]) + escaped(s.drop_first())
    }
}

/// Decimal digits of a number, most significant first.
pub open spec fn dec_rep(n: nat) -> Seq<u8>
    decreases n,
{
    if n < 10 {
        seq![(48 + n) as u8]
    } else {
        dec_rep(n / 10) + seq![(48 + n % 10) as u8]
    }
}

/// The serialized form of one entry: the identifier under the key `_id` as
/// a JSON number, omitted while it is still unassigned, and the timestamp
/// under the key `timestamp` as a JSON string.
pub open spec fn json_of_entry(e: EntryView) -> Seq<u8> {
    match e.id {
        Some(n) => seq![123u8, 34u8, 95u8, 105u8, 100u8, 34u8, 58u8]  // {"_id":
            + dec_rep(n as nat)
            + seq![
                44u8, 34u8, 116u8, 105u8, 109u8, 101u8, 115u8, 116u8, 97u8, 109u8, 112u8, 34u8,
                58u8, 34u8,
            ]  // ,"timestamp":"
            + escaped(encode_utf8(e.timestamp)) + seq![34u8, 125u8],  // "}
        None => seq![
            123u8, 34u8, 116u8, 105u8, 109u8, 101u8, 115u8, 116u8, 97u8, 109u8, 112u8, 34u8,
            58u8, 34u8,
        ]  // {"timestamp":"
            + escaped(encode_utf8(e.timestamp)) + seq![34u8, 125u8],  // "}
    }
}

/// The body of a JSON array of entries: the serialized entries joined by
/// commas.
pub open spec fn json_of_entries_inner(s: Seq<EntryView>) -> Seq<u8>
    decreases s.len(),
{
    if s.len() == 0 {
        Seq::empty()
    } else if s.len() == 1 {
        json_of_entry(s[0])
    } else {
        json_of_entry(s[0]) + seq![44u8] + json_of_entries_inner(s.drop_first())
    }
}

/// The serialized form of a listing: a JSON array of the entries in order,
/// `[]` when there are none.
pub open spec fn json_of_entries(s: Seq<EntryView>) -> Seq<u8> {
    seq![91u8] + json_of_entries_inner(s) + seq![93u8]
}

/// Appending one entry to a listing appends one serialized entry to the
/// array body, behind a comma when the body was not empty.
proof fn lemma_inner_push(s: Seq<EntryView>, e: EntryView)
    ensures
        json_of_entries_inner(s.push(e)) == if s.len() == 0 {
            json_of_entry(e)
        } else {
            json_of_entries_inner(s) + seq![44u8] + json_of_entry(e)
        },
    decreases s.len(),
{
    if s.len() == 0 {
        assert(s.push(e).len() == 1);
        assert(s.push(e)[0] == e);
    } else {
        assert(s.push(e)[0] == s[0]);
        assert(s.push(e).drop_first() =~= s.drop_first().push(e));
        lemma_inner_push(s.drop_first(), e);
        if s.len() == 1 {
            assert(json_of_entries_inner(s) == json_of_entry(s[0]));
        }
        assert(json_of_entries_inner(s.push(e)) =~= json_of_entries_inner(s) + seq![44u8]
            + json_of_entry(e));
    }
}

/// The lower-case hexadecimal digit for a value below sixteen.
fn hex_digit_byte(n: u8) -> (r: u8)
    requires
        n < 16,
    ensures
        r == hex_digit(n as int),
{
    if n < 10 {
        48 + n
    } else {
        87 + n
    }
}

/// Appends the UTF-8 bytes of `s` to `out`.
pub(crate) fn write_str_bytes(out: &mut Vec<u8>, s: &str)
    ensures
        final(out)@ == old(out)@ + s.spec_bytes(),
{
    let bytes: &[u8] = s.as_bytes();
    let n: usize = bytes.len();
    let mut i: usize = 0;
    while i < n
        invariant
            n == bytes@.len(),
            bytes@ == s.spec_bytes(),
            i <= n,
            out@ == old(out)@ + bytes@.take(i as int),
        decreases n - i,
    {
        let b: u8 = bytes[i];
        out.push(b);
        proof {
            assert(bytes@.take(i + 1) =~= bytes@.take(i as int).push(b));
            assert(out@ =~= old(out)@ + bytes@.take(i + 1));
        }
        i = i + 1;
    }
    proof {
        assert(bytes@.take(n as int) =~= bytes@);
    }
}

/// Appends the JSON escape of `s`'s UTF-8 bytes to `out`.
fn write_escaped(out: &mut Vec<u8>, s: &str)
    ensures
        final(out)@ == old(out)@ + escaped(s.spec_bytes()),
{
    let bytes: &[u8] = s.as_bytes();
    let n: usize = bytes.len();
    let mut i: usize = 0;
    proof {
        assert(bytes@.skip(0) =~= bytes@);
    }
    while i < n
        invariant
            n == bytes@.len(),
            bytes@ == s.spec_bytes(),
            i <= n,
            out@ + escaped(bytes@.skip(i as int)) == old(out)@ + escaped(bytes@),
        decreases n - i,
    {
        let b: u8 = bytes[i];
        let ghost before = out@;
        proof {
            assert(bytes@.skip(i as int)[0] == b);
            assert(bytes@.skip(i as int).drop_first() =~= bytes@.skip(i + 1));
            assert(escaped(bytes@.skip(i as int)) == escaped_byte(b) + escaped(bytes@.skip(i + 1)));
        }
        if b == 34 {
            out.push(92);
            out.push(34);
        } else if b == 92 {
            out.push(92);
            out.push(92);
        } else if b < 32 {
            out.push(92);
            out.push(117);
            out.push(48);
            out.push(48);
            out.push(hex_digit_byte(b / 16));
            out.push(hex_digit_byte(b % 16));
        } else {
            out.push(b);
        }
        proof {
            assert(out@ =~= before + escaped_byte(b));
            assert(out@ + escaped(bytes@.skip(i + 1)) =~= before + escaped(bytes@.skip(i as int)));
        }
        i = i + 1;
    }
    proof {
        assert(bytes@.skip(n as int) =~= Seq::<u8>::empty());
    }
}

/// Appends the decimal rendering of `n` to `out`.
fn write_u128(out: &mut Vec<u8>, n: u128)
    ensures
        final(out)@ == old(out)@ + dec_rep(n as nat),
    decreases n,
{
    if n >= 10 {
        write_u128(out, n / 10);
        let d: u8 = (n % 10) as u8;
        out.push(48 + d);
        proof {
            assert((n / 10) as nat == n as nat / 10);
            assert(d == n as nat % 10);
            assert(out@ =~= old(out)@ + dec_rep(n as nat));
        }
    } else {
        out.push(48 + n as u8);
        proof {
            assert(out@ =~= old(out)@ + dec_rep(n as nat));
        }
    }
}

/// Renders one entry as JSON bytes.
pub fn entry_json(e: &Entry) -> (r: Vec<u8>)
    ensures
        r@ == json_of_entry(e@),
{
    let mut out: Vec<u8> = Vec::new();
    match e.id {
        Some(n) => {
            out.push(123);
            out.push(34);
            out.push(95);
            out.push(105);
            out.push(100);
            out.push(34);
            out.push(58);
            proof {
                assert(out@ =~= seq![123u8, 34u8, 95u8, 105u8, 100u8, 34u8, 58u8]);
            }
            write_u128(&mut out, n);
            let ghost with_id = out@;
            out.push(44);
            out.push(34);
            out.push(116);
            out.push(105);
            out.push(109);
            out.push(101);
            out.push(115);
            out.push(116);
            out.push(97);
            out.push(109);
            out.push(112);
            out.push(34);
            out.push(58);
            out.push(34);
            proof {
                assert(out@ =~= with_id + seq![
                    44u8, 34u8, 116u8, 105u8, 109u8, 101u8, 115u8, 116u8, 97u8, 109u8, 112u8,
                    34u8, 58u8, 34u8,
                ]);
            }
            write_escaped(&mut out, e.timestamp.as_str());
            out.push(34);
            out.push(125);
            proof {
                assert(out@ =~= json_of_entry(e@));
            }
        },
        None => {
            out.push(123);
            out.push(34);
            out.push(116);
            out.push(105);
            out.push(109);
            out.push(101);
            out.push(115);
            out.push(116);
            out.push(97);
            out.push(109);
            out.push(112);
            out.push(34);
            out.push(58);
            out.push(34);
            proof {
                assert(out@ =~= seq![
                    123u8, 34u8, 116u8, 105u8, 109u8, 101u8, 115u8, 116u8, 97u8, 109u8, 112u8,
                    34u8, 58u8, 34u8,
                ]);
            }
            write_escaped(&mut out, e.timestamp.as_str());
            out.push(34);
            out.push(125);
            proof {
                assert(out@ =~= json_of_entry(e@));
            }
        },
    }
    out
}

/// Renders a listing of entries as a JSON array, in the order given.
pub fn entries_json(v: &Vec<Entry>) -> (r: Vec<u8>)
    ensures
        r@ == json_of_entries(views_of(v@)),
{
    let mut out: Vec<u8> = Vec::new();
    out.push(91);
    let n: usize = v.len();
    let mut i: usize = 0;
    proof {
        assert(views_of(v@).take(0) =~= Seq::<EntryView>::empty());
        assert(out@ =~= seq![91u8] + json_of_entries_inner(views_of(v@).take(0)));
    }
    while i < n
        invariant
            n == v@.len(),
            i <= n,
            out@ == seq![91u8] + json_of_entries_inner(views_of(v@).take(i as int)),
        decreases n - i,
    {
        if i > 0 {
            out.push(44);
        }
        let mut piece = entry_json(&v[i]);
        out.append(&mut piece);
        proof {
            let s = views_of(v@);
            assert(s.take(i + 1) =~= s.take(i as int).push(v@[i as int]@));
            lemma_inner_push(s.take(i as int), v@[i as int]@);
            assert(out@ =~= seq![91u8] + json_of_entries_inner(s.take(i + 1)));
        }
        i = i + 1;
    }
    out.push(93);
    proof {
        assert(views_of(v@).take(n as int) =~= views_of(v@));
        assert(out@ =~= json_of_entries(views_of(v@)));
    }
    out
}

} // verus!
