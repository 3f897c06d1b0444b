//! The persistent calibration record and its textual format.
//!
//! One record is kept per (sound card, channel) pair. A record either points
//! at the factory-programmed (VPD) values or carries a measured pair. The
//! record is persisted as a small self-describing tagged text, and reading a
//! written record back returns it unchanged (`lemma_yaml_roundtrip`).
//!
//! This crate only produces and consumes the text; reading and writing the
//! file itself is the caller's concern.

use crate::text::append_i32;
use crate::text::append_u64;
use crate::text::dec_digits;
use crate::text::has_at;
use crate::text::int_text;
use crate::text::lemma_dec_digits_are_digits;
use crate::text::lemma_parse_int_text;
use crate::text::parse_i32;
use crate::text::spec_parse_int;
use vstd::prelude::*;

verus! {

/// A persisted calibration record for one channel.
#[derive(Clone, Copy, Debug, PartialEq, Eq, Structural)]
pub enum Datastore {
    /// Use the factory-programmed (VPD) calibration values.
    UseVPD,
    /// A measured calibration: the rdc in amplifier units and the ambient
    /// temperature in the store's persisted unit.
    DSM { rdc: i32, temp: i32 },
}

/// The directory under which all calibration records live.
pub const DATASTORE_DIR: &'static str = "/var/lib/sound_card_init";

/// The text a record is persisted as.
pub open spec fn spec_to_yaml(d: Datastore) -> Seq<char> {
    match d {
        Datastore::UseVPD => "---\nUseVPD\n"@,
        Datastore::DSM { rdc, temp } => "---\nDSM:\n  rdc: "@ + int_text(rdc as int)
            + "\n  temp: "@ + int_text(temp as int) + "\n"@,
    }
}

/// The record a text denotes, if it is well formed.
pub open spec fn spec_from_yaml(t: Seq<char>) -> Option<Datastore> {
    if t == "---\nUseVPD\n"@ {
        Some(Datastore::UseVPD)
    } else {
        let head = "---\nDSM:\n  rdc: "@;
        if t.len() >= head.len() && t.subrange(0, head.len() as int) == head {
            match spec_parse_int(t, head.len() as int) {
                None => None,
                Some((rdc, p)) => {
                    let sep = "\n  temp: "@;
                    if p + sep.len() <= t.len() && t.subrange(p, p + sep.len() as int) == sep {
                        match spec_parse_int(t, p + sep.len() as int) {
                            None => None,
                            Some((temp, q)) => {
                                if q + 1 == t.len() && t[q] == '\n' {
                                    Some(
                                        (Datastore::DSM {
                                            rdc: rdc as i32,
                                            temp: temp as i32,
                                        }),
                                    )
                                } else {
                                    None
                                }
                            },
                        }
                    } else {
                        None
                    }
                },
            }
        } else {
            None
        }
    }
}

/// The path of the record for one channel of one sound card:
/// `<DATASTORE_DIR>/<sound card>/calib_<channel>`.
pub open spec fn spec_path(snd_card: Seq<char>, channel: nat) -> Seq<char> {
    DATASTORE_DIR@ + "/"@ + snd_card + "/calib_"@ + dec_digits(channel)
}

impl Datastore {
    /// Writes the record out as its persisted text.
    pub fn to_yaml(&self) -> (r: String)
        ensures
            r@ == spec_to_yaml(*self),
    {
        match self {
            Datastore::UseVPD => String::from_str("---\nUseVPD\n"),
            Datastore::DSM { rdc, temp } => {
                let mut s = String::from_str("---\nDSM:\n  rdc: ");
                append_i32(&mut s, *rdc);
                s.append("\n  temp: ");
                append_i32(&mut s, *temp);
                s.append("\n");
                proof {
                    assert(s@ =~= spec_to_yaml(*self));
                }
                s
            },
        }
    }

    /// Reads a record back from its persisted text; `None` for any text the
    /// crate does not write.
    pub fn from_yaml(s: &str) -> (r: Option<Datastore>)
        ensures
            r == spec_from_yaml(s@),
    {
        let len: usize = s.unicode_len();
        let vpd_pat = "---\nUseVPD\n";
        let plen: usize = vpd_pat.unicode_len();
        if len == plen && has_at(s, 0, vpd_pat) {
            proof {
                assert(s@.subrange(0, s@.len() as int) =~= s@);
            }
            return Some(Datastore::UseVPD);
        }
        proof {
            assert(s@.subrange(0, s@.len() as int) =~= s@);
            assert(s@ != "---\nUseVPD\n"@);
        }
        let head = "---\nDSM:\n  rdc: ";
        if !has_at(s, 0, head) {
            return None;
        }
        let hlen: usize = head.unicode_len();
        match parse_i32(s, hlen) {
            None => None,
            Some((rdc, p)) => {
                let sep = "\n  temp: ";
                if !has_at(s, p, sep) {
                    return None;
                }
                let slen: usize = sep.unicode_len();
                match parse_i32(s, p + slen) {
                    None => None,
                    Some((temp, q)) => {
                        if q < len && len - q == 1 {
                            if s.get_char(q) == '\n' {
                                Some((Datastore::DSM { rdc, temp }))
                            } else {
                                None
                            }
                        } else {
                            None
                        }
                    },
                }
            },
        }
    }

    /// The path of the record for one channel of one sound card.
    pub fn path(snd_card: &str, channel: usize) -> (r: String)
        ensures
            r@ == spec_path(snd_card@, channel as nat),
    {
        let mut s = String::from_str(DATASTORE_DIR);
        s.append("/");
        s.append(snd_card);
        s.append("/calib_");
        append_u64(&mut s, channel as u64);
        proof {
            assert(s@ =~= spec_path(snd_card@, channel as nat));
        }
        s
    }
}

/// A record written out and read back comes back unchanged: the textual
/// persistence is lossless, for the integer fields in particular.
pub proof fn lemma_yaml_roundtrip(d: Datastore)
    ensures
        spec_from_yaml(spec_to_yaml(d)) == Some(d),
{
    reveal_strlit("---\nUseVPD\n");
    reveal_strlit("---\nDSM:\n  rdc: ");
    reveal_strlit("\n  temp: ");
    reveal_strlit("\n");
    match d {
        Datastore::UseVPD => {
        },
        Datastore::DSM { rdc, temp } => {
            let a = "---\nDSM:\n  rdc: "@;
            let b = int_text(rdc as int);
            let c = "\n  temp: "@;
            let e = int_text(temp as int);
            let f = "\n"@;
            let t = spec_to_yaml(d);
            assert(t == a + b + c + e + f);
            lemma_dec_digits_are_digits(if rdc < 0 {
                (-rdc) as nat
            } else {
                rdc as nat
            });
            lemma_dec_digits_are_digits(if temp < 0 {
                (-temp) as nat
            } else {
                temp as nat
            });
            assert(b.len() >= 1 && e.len() >= 1);
            assert(t.len() >= 28);
            assert(t != "---\nUseVPD\n"@);
            assert(t.subrange(0, 16) =~= a);
            let p = 16 + b.len() as int;
            assert(t.subrange(16, p) =~= b);
            assert(t[p] == '\n');
            assert(!crate::text::is_digit('\n'));
            lemma_parse_int_text(t, 16, rdc as int);
            assert(spec_parse_int(t, 16) == Some((rdc as int, p)));
            assert(t.subrange(p, p + 9) =~= c);
            let q = p + 9 + e.len() as int;
            assert(t.subrange(p + 9, q) =~= e);
            assert(t[q] == '\n');
            lemma_parse_int_text(t, p + 9, temp as int);
            assert(spec_parse_int(t, p + 9) == Some((temp as int, q)));
            assert(q + 1 == t.len());
        },
    }
}

} // verus!
