//! Base64 decoding for resource blobs.
//!
//! The standard alphabet, four characters to three bytes, with `=`
//! padding allowed only at the end of the final block. Leftover bits in
//! a padded block are ignored rather than rejected. `spec_decode` is the
//! meaning; `decode` returns exactly what it says.

use vstd::prelude::*;

verus! {

/// The value of one alphabet character.
pub open spec fn b64_val(c: char) -> Option<int> {
    let u = c as u32;
    if 65 <= u <= 90 {
        Some((u - 65) as int)
    } else if 97 <= u <= 122 {
        Some((u - 71) as int)
    } else if 48 <= u <= 57 {
        Some((u + 4) as int)
    } else if c == '+' {
        Some(62int)
    } else if c == '/' {
        Some(63int)
    } else {
        None
    }
}

/// The bytes one full block denotes.
pub open spec fn block_bytes(v0: int, v1: int, v2: int, v3: int) -> Seq<u8> {
    seq![
        (v0 * 4 + v1 / 16) as u8,
        ((v1 % 16) * 16 + v2 / 4) as u8,
        ((v2 % 4) * 64 + v3) as u8,
    ]
}

/// The bytes the final block denotes, honouring `=` padding: two pads
/// leave one byte, one pad leaves two, none leaves three.
pub open spec fn last_block_bytes(s: Seq<char>) -> Option<Seq<u8>> {
    if s.len() != 4 {
        None
    } else {
        match (b64_val(s[0]), b64_val(s[1])) {
            (Some(v0), Some(v1)) => {
                if s[2] == '=' && s[3] == '=' {
                    Some(seq![(v0 * 4 + v1 / 16) as u8])
                } else if s[3] == '=' {
                    match b64_val(s[2]) {
                        Some(v2) => Some(
                            seq![(v0 * 4 + v1 / 16) as u8, ((v1 % 16) * 16 + v2 / 4) as u8],
                        ),
                        None => None,
                    }
                } else {
                    match (b64_val(s[2]), b64_val(s[3])) {
                        (Some(v2), Some(v3)) => Some(block_bytes(v0, v1, v2, v3)),
                        _ => None,
                    }
                }
            },
            _ => None,
        }
    }
}

/// The bytes a base64 text denotes: full blocks, then one final block
/// that may be padded; any other shape denotes nothing.
pub open spec fn spec_decode(s: Seq<char>) -> Option<Seq<u8>>
    decreases s.len(),
{
    if s.len() == 0 {
        Some(Seq::<u8>::empty())
    } else if s.len() == 4 {
        last_block_bytes(s)
    } else if s.len() < 4 || s.len() % 4 != 0 {
        None
    } else {
        match (b64_val(s[0]), b64_val(s[1]), b64_val(s[2]), b64_val(s[3])) {
            (Some(v0), Some(v1), Some(v2), Some(v3)) => match spec_decode(s.skip(4)) {
                Some(rest) => Some(block_bytes(v0, v1, v2, v3).add(rest)),
                None => None,
            },
            _ => None,
        }
    }
}

/// The value of one alphabet character.
fn val_of(c: char) -> (r: Option<u32>)
    ensures
        match r {
            Some(v) => b64_val(c) == Some(v as int) && v < 64,
            None => b64_val(c) is None,
        },
{
    let u = c as u32;
    if 65 <= u && u <= 90 {
        Some(u - 65)
    } else if 97 <= u && u <= 122 {
        Some(u - 71)
    } else if 48 <= u && u <= 57 {
        Some(u + 4)
    } else if c == '+' {
        Some(62)
    } else if c == '/' {
        Some(63)
    } else {
        None
    }
}

/// The bytes a base64 text denotes, exactly as the grammar says; text
/// that is not well-formed base64 decodes to nothing.
#[verifier::loop_isolation(false)]
#[verifier::rlimit(60)]
pub fn decode(input: &str) -> (r: Option<Vec<u8>>)
    ensures
        match r {
            Some(bytes) => spec_decode(input@) == Some(bytes@),
            None => spec_decode(input@) is None,
        },
{
    let cs = crate::json::chars_of(input);
    let n = cs.len();
    if n % 4 != 0 {
        proof {
            if input@.len() != 0 && input@.len() != 4 {
                assert(spec_decode(input@) is None);
            }
        }
        return None;
    }
    let mut out: Vec<u8> = Vec::new();
    let mut i: usize = 0;
    proof {
        assert(input@.skip(0) =~= input@);
    }
    while n - i > 4
        invariant
            i % 4 == 0,
            n % 4 == 0,
            i <= n,
            n == cs@.len(),
            cs@ == input@,
            match spec_decode(input@.skip(i as int)) {
                Some(rest) => spec_decode(input@) == Some(out@.add(rest)),
                None => spec_decode(input@) is None,
            },
        decreases n - i,
    {
        let v0 = val_of(cs[i]);
        let v1 = val_of(cs[i + 1]);
        let v2 = val_of(cs[i + 2]);
        let v3 = val_of(cs[i + 3]);
        proof {
            assert(input@.skip(i as int)[0] == input@[i as int]);
            assert(input@.skip(i as int)[1] == input@[i + 1]);
            assert(input@.skip(i as int)[2] == input@[i + 2]);
            assert(input@.skip(i as int)[3] == input@[i + 3]);
            assert(input@.skip(i as int).len() > 4);
            assert(input@.skip(i as int).len() % 4 == 0) by {
                assert(input@.skip(i as int).len() == n - i);
            }
            assert(input@.skip(i as int).skip(4) =~= input@.skip(i + 4));
        }
        match (v0, v1, v2, v3) {
            (Some(v0), Some(v1), Some(v2), Some(v3)) => {
                let ghost out0 = out@;
                out.push((v0 * 4 + v1 / 16) as u8);
                out.push(((v1 % 16) * 16 + v2 / 4) as u8);
                out.push(((v2 % 4) * 64 + v3) as u8);
                proof {
                    assert(out@ =~= out0.add(
                        block_bytes(v0 as int, v1 as int, v2 as int, v3 as int),
                    ));
                    let sd = spec_decode(input@.skip(i + 4));
                    if sd is Some {
                        let rest = sd->Some_0;
                        assert(out@.add(rest) =~= out0.add(
                            block_bytes(v0 as int, v1 as int, v2 as int, v3 as int).add(rest),
                        ));
                    }
                }
                i = i + 4;
            },
            _ => {
                return None;
            },
        }
    }
    if i == n {
        proof {
            assert(input@.skip(i as int).len() == 0);
            assert(out@.add(Seq::<u8>::empty()) =~= out@);
        }
        return Some(out);
    }
    proof {
        assert(n - i == 4);
        assert(input@.skip(i as int).len() == 4);
    }
    let c0 = cs[i];
    let c1 = cs[i + 1];
    let c2 = cs[i + 2];
    let c3 = cs[i + 3];
    proof {
        assert(input@.skip(i as int)[0] == input@[i as int]);
        assert(input@.skip(i as int)[1] == input@[i + 1]);
        assert(input@.skip(i as int)[2] == input@[i + 2]);
        assert(input@.skip(i as int)[3] == input@[i + 3]);
    }
    let v0 = match val_of(c0) {
        Some(v) => v,
        None => {
            return None;
        },
    };
    let v1 = match val_of(c1) {
        Some(v) => v,
        None => {
            return None;
        },
    };
    let tail: Option<Vec<u8>> = if c2 == '=' && c3 == '=' {
        let mut bytes: Vec<u8> = Vec::new();
        bytes.push((v0 * 4 + v1 / 16) as u8);
        Some(bytes)
    } else if c3 == '=' {
        match val_of(c2) {
            Some(v2) => {
                let mut bytes: Vec<u8> = Vec::new();
                bytes.push((v0 * 4 + v1 / 16) as u8);
                bytes.push(((v1 % 16) * 16 + v2 / 4) as u8);
                Some(bytes)
            },
            None => None,
        }
    } else {
        match (val_of(c2), val_of(c3)) {
            (Some(v2), Some(v3)) => {
                let mut bytes: Vec<u8> = Vec::new();
                bytes.push((v0 * 4 + v1 / 16) as u8);
                bytes.push(((v1 % 16) * 16 + v2 / 4) as u8);
                bytes.push(((v2 % 4) * 64 + v3) as u8);
                Some(bytes)
            },
            _ => None,
        }
    };
    match tail {
        Some(bytes) => {
            let ghost out0 = out@;
            let mut bytes_mut = bytes;
            let ghost tailseq = bytes_mut@;
            proof {
                assert(last_block_bytes(input@.skip(i as int)) == Some(tailseq));
            }
            out.append(&mut bytes_mut);
            proof {
                assert(out@ =~= out0.add(tailseq));
            }
            Some(out)
        },
        None => None,
    }
}

} // verus!
