//! Parsing of the provider's signature header: comma-separated `key=value`
//! pairs carrying one timestamp (`t`, last occurrence wins) and any number of
//! signature candidates (`v1`, order preserved). Malformed pieces are skipped
//! one by one, so forward-compatible extra fields never abort the parse.

use vstd::prelude::*;

use crate::errors::AuthError;
use crate::numeral::spec_parse_i64;
use crate::numeral::parse_i64_str;
use crate::text::split_chars;
use crate::text::split_str;
use crate::crypto::constant_time_eq_str;

verus! {

/// The `key=value` reading of one comma-separated piece.
pub open spec fn eq_segments(p: Seq<char>) -> Seq<Seq<char>> {
    split_chars(p, '=')
}

/// A piece parses as a pair exactly when it holds a single `=`.
pub open spec fn is_pair(p: Seq<char>) -> bool {
    eq_segments(p).len() == 2
}

pub open spec fn pair_key(p: Seq<char>) -> Seq<char> {
    eq_segments(p)[0]
}

pub open spec fn pair_val(p: Seq<char>) -> Seq<char> {
    eq_segments(p)[1]
}

pub open spec fn is_t_pair(p: Seq<char>) -> bool {
    is_pair(p) && pair_key(p) == seq!['t']
}

pub open spec fn is_v1_pair(p: Seq<char>) -> bool {
    is_pair(p) && pair_key(p) == seq!['v', '1']
}

/// The timestamp carried by the pieces: the last `t` pair wins, and an
/// unparseable last `t` value leaves no timestamp at all.
pub open spec fn timestamp_of_parts(parts: Seq<Seq<char>>) -> Option<i64>
    decreases parts.len(),
{
    if parts.len() == 0 {
        None
    } else if is_t_pair(parts.last()) {
        spec_parse_i64(pair_val(parts.last()))
    } else {
        timestamp_of_parts(parts.drop_last())
    }
}

/// The signature candidates carried by the pieces, in order of appearance.
pub open spec fn signatures_of_parts(parts: Seq<Seq<char>>) -> Seq<Seq<char>>
    decreases parts.len(),
{
    if parts.len() == 0 {
        Seq::empty()
    } else if is_v1_pair(parts.last()) {
        signatures_of_parts(parts.drop_last()).push(pair_val(parts.last()))
    } else {
        signatures_of_parts(parts.drop_last())
    }
}

pub open spec fn any_pair(parts: Seq<Seq<char>>) -> bool {
    exists|i: int| 0 <= i < parts.len() && is_pair(parts[i])
}

/// The mathematical reading of a parsed header.
pub struct HeaderModel {
    pub timestamp: i64,
    pub signatures: Seq<Seq<char>>,
}

/// What parsing a signature header value yields, error order included:
/// a header without a single parseable pair is malformed; one without a
/// usable timestamp lacks `t`; one without candidates lacks `v1`.
pub open spec fn parse_header_spec(h: Seq<char>) -> Result<HeaderModel, AuthError> {
    let parts = split_chars(h, ',');
    if !any_pair(parts) {
        Err(AuthError::MalformedHeader)
    } else {
        match timestamp_of_parts(parts) {
            None => Err(AuthError::MissingTimestamp),
            Some(t) => {
                if signatures_of_parts(parts).len() == 0 {
                    Err(AuthError::NoSignatures)
                } else {
                    Ok(HeaderModel { timestamp: t, signatures: signatures_of_parts(parts) })
                }
            },
        }
    }
}

/// A parsed signature header: the replay-window timestamp and the signature
/// candidates to check, in order of appearance.
pub struct SignatureHeader {
    pub timestamp: i64,
    pub signatures: Vec<String>,
}

impl SignatureHeader {
    pub open spec fn model(self) -> HeaderModel {
        HeaderModel { timestamp: self.timestamp, signatures: self.signatures.deep_view() }
    }
}

/// Parses a signature header value; no cryptography is touched here.
pub fn parse_signature_header(header_value: &str) -> (r: Result<SignatureHeader, AuthError>)
    ensures
        match r {
            Ok(h) => parse_header_spec(header_value@) == Ok::<HeaderModel, AuthError>(h.model()),
            Err(e) => parse_header_spec(header_value@) == Err::<HeaderModel, AuthError>(e),
        },
{
    let parts = split_str(header_value, ',');
    let ghost pdv = parts.deep_view();
    let mut timestamp: Option<i64> = None;
    let mut sigs: Vec<String> = Vec::new();
    let mut seen_pair = false;
    let mut i: usize = 0;
    proof {
        assert(pdv.take(0) =~= Seq::<Seq<char>>::empty());
        assert(sigs.deep_view() =~= Seq::<Seq<char>>::empty());
        assert(!any_pair(pdv.take(0)));
    }
    while i < parts.len()
        invariant
            0 <= i <= parts.len(),
            pdv == parts.deep_view(),
            timestamp == timestamp_of_parts(pdv.take(i as int)),
            sigs.deep_view() == signatures_of_parts(pdv.take(i as int)),
            seen_pair == any_pair(pdv.take(i as int)),
        decreases parts.len() - i,
    {
        let ghost p = pdv[i as int];
        proof {
            assert(pdv[i as int] == parts@[i as int].deep_view());
            assert(pdv.take(i + 1).drop_last() =~= pdv.take(i as int));
            assert(pdv.take(i + 1).last() == p);
        }
        let segs = split_str(parts[i].as_str(), '=');
        proof {
            assert(eq_segments(p) == segs.deep_view());
        }
        if segs.len() == 2 {
            proof {
                assert(is_pair(p));
                assert(any_pair(pdv.take(i + 1))) by {
                    assert(pdv.take(i + 1)[i as int] == p);
                }
                assert(segs.deep_view()[0] == segs@[0]@);
                assert(segs.deep_view()[1] == segs@[1]@);
            }
            seen_pair = true;
            if constant_time_eq_str(segs[0].as_str(), "t") {
                proof {
                    reveal_strlit("t");
                    assert("t"@ =~= seq!['t']);
                    assert(is_t_pair(p));
                }
                timestamp = parse_i64_str(segs[1].as_str());
            } else if constant_time_eq_str(segs[0].as_str(), "v1") {
                proof {
                    reveal_strlit("v1");
                    assert("v1"@ =~= seq!['v', '1']);
                    assert(is_v1_pair(p));
                    reveal_strlit("t");
                    assert("t"@ =~= seq!['t']);
                    assert(!is_t_pair(p));
                }
                let ghost prev = sigs.deep_view();
                sigs.push(segs[1].clone());
                proof {
                    assert(sigs.deep_view() =~= prev.push(pair_val(p)));
                }
            } else {
                proof {
                    reveal_strlit("t");
                    reveal_strlit("v1");
                    assert("t"@ =~= seq!['t']);
                    assert("v1"@ =~= seq!['v', '1']);
                    assert(!is_t_pair(p) && !is_v1_pair(p));
                }
            }
        } else {
            proof {
                assert(!is_pair(p));
                assert(any_pair(pdv.take(i + 1)) == any_pair(pdv.take(i as int))) by {
                    if any_pair(pdv.take(i as int)) {
                        let w = choose|k: int|
                            0 <= k < pdv.take(i as int).len() && #[trigger] is_pair(
                                pdv.take(i as int)[k],
                            );
                        assert(pdv.take(i + 1)[w] == pdv.take(i as int)[w]);
                    } else if any_pair(pdv.take(i + 1)) {
                        let w = choose|k: int|
                            0 <= k < pdv.take(i + 1).len() && #[trigger] is_pair(
                                pdv.take(i + 1)[k],
                            );
                        if w < i {
                            assert(pdv.take(i as int)[w] == pdv.take(i + 1)[w]);
                        }
                    }
                }
            }
        }
        i = i + 1;
    }
    proof {
        assert(pdv.take(parts.len() as int) =~= pdv);
    }
    if !seen_pair {
        return Err(AuthError::MalformedHeader);
    }
    match timestamp {
        None => Err(AuthError::MissingTimestamp),
        Some(t) => {
            if sigs.len() == 0 {
                proof {
                    assert(sigs.deep_view().len() == 0);
                }
                Err(AuthError::NoSignatures)
            } else {
                proof {
                    assert(sigs.deep_view().len() == sigs@.len());
                }
                Ok(SignatureHeader { timestamp: t, signatures: sigs })
            }
        },
    }
}

} // verus!
