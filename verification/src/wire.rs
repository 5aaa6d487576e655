//! The wire layer of the codec: length-delimited binary fields.
//!
//! A message is a run of fields. Each field starts with one tag byte and
//! carries either a variable-length unsigned integer (seven value bits per
//! byte, least significant group first, the high bit of a byte marking a
//! continuation) or a length-prefixed byte run. Only minimal integer
//! encodings are accepted: a continuation must encode a nonzero remainder.
//!
//! `varint_encode` and `varint_decode` are the mathematical model;
//! `lemma_varint_decode_complete` and `lemma_varint_decode_sound` state that
//! they are exact inverses. The executable readers and writers are verified
//! against the model.

use vstd::prelude::*;

verus! {

/// The minimal variable-length encoding of `v`.
pub open spec fn varint_encode(v: nat) -> Seq<u8>
    decreases v,
{
    if v < 128 {
        seq![v as u8]
    } else {
        seq![(v % 128 + 128) as u8] + varint_encode(v / 128)
    }
}

/// Reads one variable-length integer from the front of `s`: the value and
/// the number of bytes it occupies. Rejects an empty input, a missing
/// terminal byte, and a non-minimal encoding (a continuation whose remainder
/// encodes zero).
pub open spec fn varint_decode(s: Seq<u8>) -> Option<(nat, nat)>
    decreases s.len(),
{
    if s.len() == 0 {
        None
    } else if s[0] < 128 {
        Some((s[0] as nat, 1))
    } else {
        match varint_decode(s.skip(1)) {
            Some((v, n)) => if v > 0 {
                Some((128 * v + (s[0] - 128) as nat, n + 1))
            } else {
                None
            },
            None => None,
        }
    }
}

/// Decoding is complete: an encoding at the front of the input, whatever
/// follows it, yields back the encoded value and its exact length.
pub proof fn lemma_varint_decode_complete(v: nat, rest: Seq<u8>)
    ensures
        varint_decode(varint_encode(v) + rest) == Some((v, varint_encode(v).len())),
    decreases v,
{
    let s = varint_encode(v) + rest;
    if v < 128 {
        assert(s[0] == v as u8);
    } else {
        lemma_varint_decode_complete(v / 128, rest);
        assert(s.skip(1) =~= varint_encode(v / 128) + rest);
        assert(s[0] == (v % 128 + 128) as u8);
        assert(128 * (v / 128) + ((v % 128 + 128) as u8 - 128) as nat == v) by {
            vstd::arithmetic::div_mod::lemma_fundamental_div_mod(v as int, 128);
        };
    }
}

/// Decoding is sound: a successful read means the input starts with exactly
/// the minimal encoding of the value read.
pub proof fn lemma_varint_decode_sound(s: Seq<u8>)
    ensures
        varint_decode(s) matches Some(p) ==> {
            &&& 1 <= p.1 <= s.len()
            &&& s.take(p.1 as int) == varint_encode(p.0)
        },
    decreases s.len(),
{
    match varint_decode(s) {
        Some((v, n)) => {
            if s[0] < 128 {
                assert(s.take(1) =~= seq![s[0]]);
            } else {
                lemma_varint_decode_sound(s.skip(1));
                let (v2, n2) = varint_decode(s.skip(1)).unwrap();
                assert(v == 128 * v2 + (s[0] - 128) as nat);
                assert(v / 128 == v2 && v % 128 == (s[0] - 128) as nat) by {
                    vstd::arithmetic::div_mod::lemma_fundamental_div_mod_converse(
                        v as int,
                        128,
                        v2 as int,
                        (s[0] - 128) as int,
                    );
                };
                assert(v >= 128) by {
                    assert(128 * v2 >= 128 * 1) by (nonlinear_arith)
                        requires
                            v2 >= 1,
                    ;
                };
                assert(s.take(n as int) =~= seq![s[0]] + s.skip(1).take(n2 as int));
                assert(varint_encode(v) == seq![(v % 128 + 128) as u8] + varint_encode(v / 128));
                assert((v % 128 + 128) as u8 == s[0]);
            }
        },
        None => {},
    }
}

/// A field holding a variable-length integer: the tag byte, then the value.
pub open spec fn varint_field(tag: u8, v: nat) -> Seq<u8> {
    seq![tag] + varint_encode(v)
}

/// A field holding a byte run: the tag byte, the run's length, the run.
pub open spec fn bytes_field(tag: u8, p: Seq<u8>) -> Seq<u8> {
    seq![tag] + varint_encode(p.len()) + p
}

/// Reads one integer field from the front of `s`: the value and the
/// remainder of the input.
pub open spec fn parse_varint_field(s: Seq<u8>, tag: u8) -> Option<(nat, Seq<u8>)> {
    if s.len() > 0 && s[0] == tag {
        match varint_decode(s.skip(1)) {
            Some((v, n)) => Some((v, s.skip(1 + n as int))),
            None => None,
        }
    } else {
        None
    }
}

/// Reads one byte-run field from the front of `s`: the run and the remainder
/// of the input.
pub open spec fn parse_bytes_field(s: Seq<u8>, tag: u8) -> Option<(Seq<u8>, Seq<u8>)> {
    match parse_varint_field(s, tag) {
        Some((len, rest)) => if len <= rest.len() {
            Some((rest.take(len as int), rest.skip(len as int)))
        } else {
            None
        },
        None => None,
    }
}

/// Reading an integer field is complete: an encoded field at the front of
/// the input yields its value and leaves exactly what follows it.
pub proof fn lemma_parse_varint_field_complete(tag: u8, v: nat, rest: Seq<u8>)
    ensures
        parse_varint_field(varint_field(tag, v) + rest, tag) == Some((v, rest)),
{
    let s = varint_field(tag, v) + rest;
    assert(s[0] == tag);
    assert(s.skip(1) =~= varint_encode(v) + rest);
    lemma_varint_decode_complete(v, rest);
    let n = varint_encode(v).len();
    assert(s.skip(1 + n as int) =~= rest);
}

/// Reading an integer field is sound: a successful read means the input is
/// exactly the field's encoding followed by the remainder returned.
pub proof fn lemma_parse_varint_field_sound(s: Seq<u8>, tag: u8)
    ensures
        parse_varint_field(s, tag) matches Some(p) ==> {
            &&& s == varint_field(tag, p.0) + p.1
            &&& s.len() == varint_field(tag, p.0).len() + p.1.len()
        },
{
    match parse_varint_field(s, tag) {
        Some((v, rem)) => {
            lemma_varint_decode_sound(s.skip(1));
            let n = varint_decode(s.skip(1)).unwrap().1;
            assert(s.skip(1).take(n as int) == varint_encode(v));
            assert(s =~= varint_field(tag, v) + s.skip(1 + n as int));
        },
        None => {},
    }
}

/// Reading a byte-run field is complete: an encoded field at the front of
/// the input yields its run and leaves exactly what follows it.
pub proof fn lemma_parse_bytes_field_complete(tag: u8, p: Seq<u8>, rest: Seq<u8>)
    ensures
        parse_bytes_field(bytes_field(tag, p) + rest, tag) == Some((p, rest)),
{
    let s = bytes_field(tag, p) + rest;
    assert(s =~= varint_field(tag, p.len()) + (p + rest));
    lemma_parse_varint_field_complete(tag, p.len(), p + rest);
    assert((p + rest).take(p.len() as int) =~= p);
    assert((p + rest).skip(p.len() as int) =~= rest);
}

/// Reading a byte-run field is sound: a successful read means the input is
/// exactly the field's encoding followed by the remainder returned.
pub proof fn lemma_parse_bytes_field_sound(s: Seq<u8>, tag: u8)
    ensures
        parse_bytes_field(s, tag) matches Some(p) ==> {
            &&& s == bytes_field(tag, p.0) + p.1
            &&& s.len() == bytes_field(tag, p.0).len() + p.1.len()
        },
{
    match parse_bytes_field(s, tag) {
        Some((run, rem)) => {
            lemma_parse_varint_field_sound(s, tag);
            let (len, rest) = parse_varint_field(s, tag).unwrap();
            assert(rest =~= run + rem);
            assert(s =~= (varint_field(tag, len) + run) + rem);
            assert(varint_field(tag, len) + run =~= bytes_field(tag, run));
        },
        None => {},
    }
}

/// A field that is omitted when its value is the default (zero): nothing on
/// the wire for zero, the tagged field otherwise.
pub open spec fn opt_varint_field(tag: u8, v: nat) -> Seq<u8> {
    if v == 0 {
        Seq::<u8>::empty()
    } else {
        varint_field(tag, v)
    }
}

/// A byte-run field that is omitted when the run is empty.
pub open spec fn opt_bytes_field(tag: u8, p: Seq<u8>) -> Seq<u8> {
    if p.len() == 0 {
        Seq::<u8>::empty()
    } else {
        bytes_field(tag, p)
    }
}

/// True when `s` does not begin with the tag: an omitted field's place.
pub open spec fn tag_absent(s: Seq<u8>, tag: u8) -> bool {
    s.len() == 0 || s[0] != tag
}

/// Reads one omittable integer field from the front of `s`: the default
/// (zero) where the tag is absent, else the tagged value, which the minimal
/// form requires to be nonzero.
pub open spec fn parse_opt_varint_field(s: Seq<u8>, tag: u8) -> Option<(nat, Seq<u8>)> {
    if tag_absent(s, tag) {
        Some((0, s))
    } else {
        match parse_varint_field(s, tag) {
            Some((v, rest)) => if v > 0 {
                Some((v, rest))
            } else {
                None
            },
            None => None,
        }
    }
}

/// Reads one omittable byte-run field from the front of `s`: the empty run
/// where the tag is absent, else the tagged run, which the minimal form
/// requires to be nonempty.
pub open spec fn parse_opt_bytes_field(s: Seq<u8>, tag: u8) -> Option<(Seq<u8>, Seq<u8>)> {
    if tag_absent(s, tag) {
        Some((Seq::<u8>::empty(), s))
    } else {
        match parse_bytes_field(s, tag) {
            Some((run, rest)) => if run.len() > 0 {
                Some((run, rest))
            } else {
                None
            },
            None => None,
        }
    }
}

/// Reading an omittable integer field is complete, provided what follows the
/// field does not itself begin with the field's tag (in a message, what
/// follows carries only higher tags).
pub proof fn lemma_parse_opt_varint_field_complete(tag: u8, v: nat, rest: Seq<u8>)
    requires
        tag_absent(rest, tag),
    ensures
        parse_opt_varint_field(opt_varint_field(tag, v) + rest, tag) == Some((v, rest)),
{
    let s = opt_varint_field(tag, v) + rest;
    if v == 0 {
        assert(s =~= rest);
    } else {
        assert(s[0] == tag);
        lemma_parse_varint_field_complete(tag, v, rest);
    }
}

/// Reading an omittable byte-run field is complete under the same proviso.
pub proof fn lemma_parse_opt_bytes_field_complete(tag: u8, p: Seq<u8>, rest: Seq<u8>)
    requires
        tag_absent(rest, tag),
    ensures
        parse_opt_bytes_field(opt_bytes_field(tag, p) + rest, tag) == Some((p, rest)),
{
    let s = opt_bytes_field(tag, p) + rest;
    if p.len() == 0 {
        assert(s =~= rest);
        assert(p =~= Seq::<u8>::empty());
    } else {
        assert(s[0] == tag);
        lemma_parse_bytes_field_complete(tag, p, rest);
    }
}

/// Reading an omittable integer field is sound: the input is exactly the
/// field's (possibly empty) encoding followed by the remainder returned.
pub proof fn lemma_parse_opt_varint_field_sound(s: Seq<u8>, tag: u8)
    ensures
        parse_opt_varint_field(s, tag) matches Some(p) ==> {
            &&& s == opt_varint_field(tag, p.0) + p.1
            &&& s.len() == opt_varint_field(tag, p.0).len() + p.1.len()
        },
{
    match parse_opt_varint_field(s, tag) {
        Some((v, rem)) => {
            if tag_absent(s, tag) {
                assert(s =~= opt_varint_field(tag, 0) + s);
            } else {
                lemma_parse_varint_field_sound(s, tag);
            }
        },
        None => {},
    }
}

/// Reading an omittable byte-run field is sound in the same way.
pub proof fn lemma_parse_opt_bytes_field_sound(s: Seq<u8>, tag: u8)
    ensures
        parse_opt_bytes_field(s, tag) matches Some(p) ==> {
            &&& s == opt_bytes_field(tag, p.0) + p.1
            &&& s.len() == opt_bytes_field(tag, p.0).len() + p.1.len()
        },
{
    match parse_opt_bytes_field(s, tag) {
        Some((run, rem)) => {
            if tag_absent(s, tag) {
                assert(s =~= opt_bytes_field(tag, Seq::<u8>::empty()) + s);
            } else {
                lemma_parse_bytes_field_sound(s, tag);
            }
        },
        None => {},
    }
}

/// An omittable field followed by a tail that avoids an earlier tag still
/// avoids that tag: fields with ascending distinct tags compose.
pub proof fn lemma_opt_varint_field_keeps_tag_absent(
    other: u8,
    tag: u8,
    v: nat,
    rest: Seq<u8>,
)
    requires
        other != tag,
        tag_absent(rest, other),
    ensures
        tag_absent(opt_varint_field(tag, v) + rest, other),
{
    let s = opt_varint_field(tag, v) + rest;
    if v == 0 {
        assert(s =~= rest);
    } else {
        assert(s[0] == tag);
    }
}

/// The byte-run counterpart of the composition fact above.
pub proof fn lemma_opt_bytes_field_keeps_tag_absent(other: u8, tag: u8, p: Seq<u8>, rest: Seq<u8>)
    requires
        other != tag,
        tag_absent(rest, other),
    ensures
        tag_absent(opt_bytes_field(tag, p) + rest, other),
{
    let s = opt_bytes_field(tag, p) + rest;
    if p.len() == 0 {
        assert(s =~= rest);
    } else {
        assert(s[0] == tag);
    }
}

/// Reads one variable-length integer from `b` at position `i`. Returns the
/// value and the position just past it, or nothing where no minimal encoding
/// of a value in the integer's range starts at `i`.
pub fn read_varint(b: &[u8], i: usize) -> (r: Option<(u64, usize)>)
    requires
        i <= b@.len(),
    ensures
        r matches Some(p) ==> {
            &&& i < p.1 <= b@.len()
            &&& varint_decode(b@.skip(i as int)) == Some((p.0 as nat, (p.1 - i) as nat))
        },
        r is None ==> match varint_decode(b@.skip(i as int)) {
            Some(p) => p.0 > u64::MAX,
            None => true,
        },
    decreases b@.len() - i,
{
    let n = b.len();
    if i == n {
        return None;
    }
    let byte: u8 = b[i];
    if byte < 128 {
        assert(b@.skip(i as int)[0] == byte);
        Some((byte as u64, i + 1))
    } else {
        let low: u64 = (byte - 128) as u64;
        assert(b@.skip(i as int).skip(1) =~= b@.skip(i as int + 1));
        match read_varint(b, i + 1) {
            None => {
                proof {
                    match varint_decode(b@.skip(i as int + 1)) {
                        Some(q) => {
                            if q.0 > u64::MAX {
                                assert(128 * q.0 >= q.0) by (nonlinear_arith);
                            }
                        },
                        None => {},
                    }
                }
                None
            },
            Some((v, j)) => {
                if v == 0 {
                    None
                } else if v > (u64::MAX - low) / 128 {
                    assert(varint_decode(b@.skip(i as int)) matches Some(p) ==> p.0 > u64::MAX) by {
                        assert(128 * (v as nat) + low > u64::MAX) by (nonlinear_arith)
                            requires
                                v > (u64::MAX - low) / 128,
                                low < 128,
                        ;
                    };
                    None
                } else {
                    assert(128 * (v as nat) + low <= u64::MAX) by (nonlinear_arith)
                        requires
                            v <= (u64::MAX - low) / 128,
                            low < 128,
                    ;
                    Some((128 * v + low, j))
                }
            },
        }
    }
}

/// Appends the minimal variable-length encoding of `v` to `out`.
pub fn push_varint(out: &mut Vec<u8>, v: u64)
    ensures
        final(out)@ == old(out)@ + varint_encode(v as nat),
    decreases v,
{
    if v < 128 {
        out.push(v as u8);
        assert(out@ =~= old(out)@ + varint_encode(v as nat));
    } else {
        out.push((v % 128 + 128) as u8);
        push_varint(out, v / 128);
        assert(out@ =~= old(out)@ + varint_encode(v as nat));
    }
}

/// Appends one integer field to `out`.
pub fn push_varint_field(out: &mut Vec<u8>, tag: u8, v: u64)
    ensures
        final(out)@ == old(out)@ + varint_field(tag, v as nat),
{
    out.push(tag);
    push_varint(out, v);
    assert(out@ =~= old(out)@ + varint_field(tag, v as nat));
}

/// Appends one byte-run field to `out`.
pub fn push_bytes_field(out: &mut Vec<u8>, tag: u8, p: &[u8])
    ensures
        final(out)@ == old(out)@ + bytes_field(tag, p@),
{
    out.push(tag);
    push_varint(out, p.len() as u64);
    out.extend_from_slice(p);
    assert(out@ =~= old(out)@ + bytes_field(tag, p@));
}

/// Appends one omittable integer field to `out`: nothing for the default
/// value, the tagged field otherwise.
pub fn push_opt_varint_field(out: &mut Vec<u8>, tag: u8, v: u64)
    ensures
        final(out)@ == old(out)@ + opt_varint_field(tag, v as nat),
{
    if v != 0 {
        push_varint_field(out, tag, v);
    } else {
        assert(out@ =~= old(out)@ + opt_varint_field(tag, v as nat));
    }
}

/// Appends one omittable byte-run field to `out`: nothing for an empty run,
/// the tagged field otherwise.
pub fn push_opt_bytes_field(out: &mut Vec<u8>, tag: u8, p: &[u8])
    ensures
        final(out)@ == old(out)@ + opt_bytes_field(tag, p@),
{
    if p.len() != 0 {
        push_bytes_field(out, tag, p);
    } else {
        assert(out@ =~= old(out)@ + opt_bytes_field(tag, p@));
    }
}

/// Reads one integer field from `b` at position `i`: the value and the
/// position just past the field.
pub fn read_varint_field(b: &[u8], i: usize, tag: u8) -> (r: Option<(u64, usize)>)
    requires
        i <= b@.len(),
    ensures
        r matches Some(p) ==> {
            &&& i < p.1 <= b@.len()
            &&& parse_varint_field(b@.skip(i as int), tag) == Some((p.0 as nat, b@.skip(p.1 as int)))
        },
        r is None ==> match parse_varint_field(b@.skip(i as int), tag) {
            Some(p) => p.0 > u64::MAX,
            None => true,
        },
{
    let n = b.len();
    if i == n {
        return None;
    }
    if b[i] != tag {
        assert(b@.skip(i as int)[0] != tag);
        return None;
    }
    assert(b@.skip(i as int)[0] == tag);
    assert(b@.skip(i as int).skip(1) =~= b@.skip(i as int + 1));
    match read_varint(b, i + 1) {
        None => None,
        Some((v, j)) => {
            assert(b@.skip(i as int).skip(1 + (j - i - 1)) =~= b@.skip(j as int));
            Some((v, j))
        },
    }
}

/// Reads one byte-run field from `b` at position `i`: the run, copied out,
/// and the position just past the field.
#[verifier::rlimit(30)]
pub fn read_bytes_field(b: &[u8], i: usize, tag: u8) -> (r: Option<(Vec<u8>, usize)>)
    requires
        i <= b@.len(),
    ensures
        r matches Some(p) ==> {
            &&& i < p.1 <= b@.len()
            &&& parse_bytes_field(b@.skip(i as int), tag) == Some((p.0@, b@.skip(p.1 as int)))
        },
        r is None ==> parse_bytes_field(b@.skip(i as int), tag) is None,
{
    let n = b.len();
    match read_varint_field(b, i, tag) {
        None => {
            proof {
                lemma_parse_varint_field_sound(b@.skip(i as int), tag);
                match parse_varint_field(b@.skip(i as int), tag) {
                    Some((len, rest)) => {
                        assert(rest.len() <= n);
                        assert(len > rest.len());
                    },
                    None => {},
                }
            }
            None
        },
        Some((len, j)) => {
            let remaining = b.len() - j;
            if len > remaining as u64 {
                return None;
            }
            let len_us = len as usize;
            let run: &[u8] = vstd::slice::slice_subrange(b, j, j + len_us);
            let out: Vec<u8> = vstd::slice::slice_to_vec(run);
            assert(out@ =~= b@.skip(j as int).take(len as int));
            assert(b@.skip(j as int).skip(len as int) =~= b@.skip(j as int + len as int));
            Some((out, j + len_us))
        },
    }
}

/// Reads one omittable integer field from `b` at position `i`: the default
/// value in place where the tag is absent, else the tagged value.
pub fn read_opt_varint_field(b: &[u8], i: usize, tag: u8) -> (r: Option<(u64, usize)>)
    requires
        i <= b@.len(),
    ensures
        r matches Some(p) ==> {
            &&& i <= p.1 <= b@.len()
            &&& parse_opt_varint_field(b@.skip(i as int), tag) == Some(
                (p.0 as nat, b@.skip(p.1 as int)),
            )
        },
        r is None ==> match parse_opt_varint_field(b@.skip(i as int), tag) {
            Some(p) => p.0 > u64::MAX,
            None => true,
        },
{
    let n = b.len();
    if i == n || b[i] != tag {
        proof {
            if i < n {
                assert(b@.skip(i as int)[0] == b@[i as int]);
            }
            assert(tag_absent(b@.skip(i as int), tag));
        }
        return Some((0, i));
    }
    assert(b@.skip(i as int)[0] == tag);
    match read_varint_field(b, i, tag) {
        None => None,
        Some((v, j)) => {
            if v == 0 {
                None
            } else {
                Some((v, j))
            }
        },
    }
}

/// Reads one omittable byte-run field from `b` at position `i`: the empty
/// run in place where the tag is absent, else the tagged run, copied out.
pub fn read_opt_bytes_field(b: &[u8], i: usize, tag: u8) -> (r: Option<(Vec<u8>, usize)>)
    requires
        i <= b@.len(),
    ensures
        r matches Some(p) ==> {
            &&& i <= p.1 <= b@.len()
            &&& parse_opt_bytes_field(b@.skip(i as int), tag) == Some((p.0@, b@.skip(p.1 as int)))
        },
        r is None ==> parse_opt_bytes_field(b@.skip(i as int), tag) is None,
{
    let n = b.len();
    if i == n || b[i] != tag {
        proof {
            if i < n {
                assert(b@.skip(i as int)[0] == b@[i as int]);
            }
            assert(tag_absent(b@.skip(i as int), tag));
        }
        let empty: Vec<u8> = Vec::new();
        assert(empty@ =~= Seq::<u8>::empty());
        return Some((empty, i));
    }
    assert(b@.skip(i as int)[0] == tag);
    match read_bytes_field(b, i, tag) {
        None => None,
        Some((run, j)) => {
            if run.len() == 0 {
                None
            } else {
                Some((run, j))
            }
        },
    }
}

} // verus!
