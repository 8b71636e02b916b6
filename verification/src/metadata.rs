//! Metadata extraction: turn what the probe reported into a validated
//! record, or an error record naming the file and its submitter.
//!
//! The probe itself is an external process and its JSON is decoded at
//! the edge; the decoded fields arrive here as plain optional strings.
//! Validation is exact: the duration must be a decimal number of
//! seconds (milliseconds beyond the third fractional digit are
//! dropped), the frame count and bitrate must be decimal integers in
//! range, and the fps and codec must be present.  A missing or
//! malformed field rejects the file.

use vstd::prelude::*;

use crate::pipeline::DetailedMsg;
use crate::strutil::{all_digits, dec_val, digit_val, parse_u64_dec};
use crate::transcode::Metadata;

verus! {

/// What the caller decoded out of the probe's JSON.
pub struct ProbeFields {
    /// Duration in seconds, decimal text.
    pub duration_text: Option<String>,
    /// Total frame count, decimal text.
    pub total_frames_text: Option<String>,
    /// Frames per second, textual form kept as reported.
    pub fps_text: Option<String>,
    /// Video bitrate in bits per second, decimal text.
    pub bit_rate_text: Option<String>,
    /// Codec name of the video stream.
    pub codec_name: Option<String>,
    /// The probe's whole output.
    pub raw_json: String,
}

/// There is a dot in the text.
pub open spec fn has_dot(s: Seq<char>) -> bool {
    exists|i: int| 0 <= i < s.len() && s[i] == '.'
}

/// Index of the first dot of a text that has one.
pub open spec fn first_dot(s: Seq<char>) -> int {
    choose|i: int| 0 <= i < s.len() && s[i] == '.'
        && forall|j: int| 0 <= j < i ==> s[j] != '.'
}

pub proof fn lemma_first_dot(s: Seq<char>, k: int)
    requires
        0 <= k < s.len(),
        s[k] == '.',
        forall|j: int| 0 <= j < k ==> s[j] != '.',
    ensures
        first_dot(s) == k,
{
    assert(0 <= k < s.len() && s[k] == '.' && (forall|j: int| 0 <= j < k ==> s[j] != '.'));
    let i = first_dot(s);
    if i < k {
        assert(s[i] != '.');
    }
    if i > k {
        assert(s[k] != '.');
    }
}

/// The integer part of a decimal duration text.
pub open spec fn int_part(s: Seq<char>) -> Seq<char> {
    if has_dot(s) {
        s.subrange(0, first_dot(s))
    } else {
        s
    }
}

/// The fractional part of a decimal duration text.
pub open spec fn frac_part(s: Seq<char>) -> Seq<char> {
    if has_dot(s) {
        s.subrange(first_dot(s) + 1, s.len() as int)
    } else {
        Seq::empty()
    }
}

/// Milliseconds of the first three fractional digits.
pub open spec fn frac_ms(fp: Seq<char>) -> int {
    if fp.len() == 0 {
        0
    } else if fp.len() == 1 {
        100 * digit_val(fp[0])
    } else if fp.len() == 2 {
        100 * digit_val(fp[0]) + 10 * digit_val(fp[1])
    } else {
        100 * digit_val(fp[0]) + 10 * digit_val(fp[1]) + digit_val(fp[2])
    }
}

/// A well-formed decimal duration: a nonempty all-digit integer part,
/// an all-digit fractional part.
pub open spec fn duration_wf(s: Seq<char>) -> bool {
    int_part(s).len() > 0 && all_digits(int_part(s)) && all_digits(frac_part(s))
}

/// The duration in milliseconds a well-formed text denotes.
pub open spec fn spec_duration_ms(s: Seq<char>) -> int {
    1000 * dec_val(int_part(s)) + frac_ms(frac_part(s))
}

/// Parse a decimal duration in seconds into milliseconds, truncating
/// beyond the third fractional digit.  Succeeds exactly on well-formed
/// texts whose value fits.
pub fn parse_duration_ms(s: &str) -> (r: Option<u64>)
    ensures
        r is Some <==> duration_wf(s@) && spec_duration_ms(s@) <= u64::MAX,
        r matches Some(v) ==> v == spec_duration_ms(s@),
{
    let n = s.unicode_len();
    let ghost sv = s@;
    // Find the first dot.
    let mut dot: usize = n;
    let mut i: usize = 0;
    while i < n
        invariant
            sv == s@,
            i <= n == sv.len(),
            dot <= n,
            dot == n ==> forall|j: int| 0 <= j < i ==> sv[j] != '.',
            dot < n ==> dot < i && sv[dot as int] == '.'
                && (forall|j: int| 0 <= j < dot ==> sv[j] != '.'),
        decreases n - i,
    {
        if dot == n && s.get_char(i) == '.' {
            dot = i;
        }
        i = i + 1;
    }
    proof {
        if dot == n {
            assert(!has_dot(sv));
        } else {
            lemma_first_dot(sv, dot as int);
            assert(has_dot(sv));
            assert(int_part(sv) =~= sv.subrange(0, dot as int));
            assert(frac_part(sv) =~= sv.subrange(dot as int + 1, n as int));
        }
    }
    let ip_str = if dot == n { s } else { s.substring_char(0, dot) };
    proof {
        if dot == n {
            assert(int_part(sv) =~= sv);
            assert(frac_part(sv) =~= Seq::<char>::empty());
        }
    }
    let ip_val = match parse_u64_dec(ip_str) {
        Some(v) => v,
        None => {
            proof {
                if duration_wf(sv) {
                    crate::strutil::lemma_dec_val_nonneg(int_part(sv));
                    assert(frac_ms(frac_part(sv)) >= 0);
                    if spec_duration_ms(sv) <= u64::MAX {
                        assert(1000 * dec_val(int_part(sv)) <= spec_duration_ms(sv));
                        assert(dec_val(int_part(sv)) <= u64::MAX) by (nonlinear_arith)
                            requires
                                1000 * dec_val(int_part(sv)) <= u64::MAX,
                                dec_val(int_part(sv)) >= 0;
                    }
                }
            }
            return None;
        },
    };
    // The first three fractional digits; every fractional character
    // must be a digit.
    let mut f3: u64 = 0;
    let ghost fp = frac_part(sv);
    if dot < n {
        let mut k: usize = dot + 1;
        let mut scale: u64 = 100;
        while k < n
            invariant
                sv == s@,
                dot < n == sv.len(),
                sv[dot as int] == '.',
                fp == frac_part(sv),
                fp == sv.subrange(dot as int + 1, n as int),
                dot + 1 <= k <= n,
                all_digits(fp.subrange(0, k - dot - 1)),
                f3 == frac_ms(fp.subrange(0, k - dot - 1)),
                scale == (if k - dot - 1 == 0 { 100int } else if k - dot - 1 == 1 { 10int }
                    else { 1int }),
                f3 <= 999,
            decreases n - k,
        {
            let c = s.get_char(k);
            let u = c as u32;
            if !(48 <= u && u <= 57) {
                proof {
                    let kk = k as int - dot as int - 1;
                    assert(fp[kk] == sv[k as int]);
                    assert(!crate::strutil::is_digit(fp[kk]));
                    assert(!all_digits(fp));
                }
                return None;
            }
            proof {
                let kk = k as int - dot as int - 1;
                assert(fp[kk] == sv[k as int]);
                assert(fp.subrange(0, kk + 1).drop_last() =~= fp.subrange(0, kk));
            }
            if k - dot - 1 < 3 {
                f3 = f3 + scale * ((u - 48) as u64);
                scale = if scale == 100 { 10 } else { 1 };
            }
            proof {
                let kk = k as int - dot as int - 1;
                let p = fp.subrange(0, kk + 1);
                if kk >= 3 {
                    assert(p[0] == fp[0] && p[1] == fp[1] && p[2] == fp[2]);
                    assert(fp.subrange(0, kk)[0] == fp[0]
                        && fp.subrange(0, kk)[1] == fp[1]
                        && fp.subrange(0, kk)[2] == fp[2]);
                }
            }
            k = k + 1;
        }
        proof {
            assert(fp.subrange(0, n as int - dot as int - 1) =~= fp);
        }
    }
    // Combine, watching the range.
    if ip_val > (u64::MAX - f3) / 1000 {
        proof {
            assert(1000 * ip_val + f3 > u64::MAX) by (nonlinear_arith)
                requires
                    ip_val as int > (u64::MAX as int - f3) / 1000,
                    0 <= f3 <= 999;
        }
        return None;
    }
    proof {
        assert(1000 * ip_val + f3 <= u64::MAX) by (nonlinear_arith)
            requires
                ip_val as int <= (u64::MAX as int - f3) / 1000,
                0 <= f3 <= 999;
    }
    Some(1000 * ip_val + f3)
}

/// Whether the probe's fields make a valid metadata record.
pub open spec fn probe_ok(f: ProbeFields) -> bool {
    &&& f.duration_text matches Some(d) && duration_wf(d@) && spec_duration_ms(d@) <= u64::MAX
    &&& f.total_frames_text matches Some(t) && t@.len() > 0 && all_digits(t@)
        && dec_val(t@) <= i32::MAX
    &&& f.fps_text is Some
    &&& f.bit_rate_text matches Some(b) && b@.len() > 0 && all_digits(b@)
        && dec_val(b@) <= u32::MAX
    &&& f.codec_name is Some
}

/// Assemble a metadata record from the probe's fields, or reject the
/// file with an error record carrying its path and submitter.
pub fn build_metadata(f: &ProbeFields, src_file: &str, user_id: &str)
    -> (r: Result<Metadata, DetailedMsg>)
    ensures
        r is Ok <==> probe_ok(*f),
        r matches Ok(md) ==> {
            &&& md.src_file@ == src_file@
            &&& md.user_id@ == user_id@
            &&& md.duration_ms == spec_duration_ms(f.duration_text->0@)
            &&& md.total_frames == dec_val(f.total_frames_text->0@)
            &&& md.fps == f.fps_text->0
            &&& md.bitrate == dec_val(f.bit_rate_text->0@)
            &&& md.orig_codec == f.codec_name->0
            &&& md.metadata_all == f.raw_json
        },
        r matches Err(e) ==> e.src_file@ == src_file@ && e.user_id@ == user_id@
            && e.msg@ == "Invalid probe metadata"@,
    {
        let duration_ms = match &f.duration_text {
            Some(d) => match parse_duration_ms(d.as_str()) {
                Some(v) => v,
                None => {
                    return Err(DetailedMsg {
                        msg: String::from_str("Invalid probe metadata"),
                        details: String::from_str("missing or invalid duration"),
                        src_file: String::from_str(src_file),
                        user_id: String::from_str(user_id),
                    });
                },
            },
            None => {
                return Err(DetailedMsg {
                    msg: String::from_str("Invalid probe metadata"),
                    details: String::from_str("missing or invalid duration"),
                    src_file: String::from_str(src_file),
                    user_id: String::from_str(user_id),
                });
            },
        };
        let total_frames = match &f.total_frames_text {
            Some(t) => match parse_u64_dec(t.as_str()) {
                Some(v) if v <= i32::MAX as u64 => v as u32,
                _ => {
                    proof {
                        match &f.total_frames_text {
                            Some(t2) => {
                                if t2@.len() > 0 && all_digits(t2@) && dec_val(t2@) <= i32::MAX {
                                    assert(dec_val(t2@) <= u64::MAX);
                                }
                            },
                            None => {},
                        }
                    }
                    return Err(DetailedMsg {
                        msg: String::from_str("Invalid probe metadata"),
                        details: String::from_str("missing or invalid frame count"),
                        src_file: String::from_str(src_file),
                        user_id: String::from_str(user_id),
                    });
                },
            },
            None => {
                return Err(DetailedMsg {
                    msg: String::from_str("Invalid probe metadata"),
                    details: String::from_str("missing or invalid frame count"),
                    src_file: String::from_str(src_file),
                    user_id: String::from_str(user_id),
                });
            },
        };
        let bitrate = match &f.bit_rate_text {
            Some(b) => match parse_u64_dec(b.as_str()) {
                Some(v) if v <= u32::MAX as u64 => v as u32,
                _ => {
                    proof {
                        match &f.bit_rate_text {
                            Some(b2) => {
                                if b2@.len() > 0 && all_digits(b2@) && dec_val(b2@) <= u32::MAX {
                                    assert(dec_val(b2@) <= u64::MAX);
                                }
                            },
                            None => {},
                        }
                    }
                    return Err(DetailedMsg {
                        msg: String::from_str("Invalid probe metadata"),
                        details: String::from_str("missing or invalid bitrate"),
                        src_file: String::from_str(src_file),
                        user_id: String::from_str(user_id),
                    });
                },
            },
            None => {
                return Err(DetailedMsg {
                    msg: String::from_str("Invalid probe metadata"),
                    details: String::from_str("missing or invalid bitrate"),
                    src_file: String::from_str(src_file),
                    user_id: String::from_str(user_id),
                });
            },
        };
        let fps = match &f.fps_text {
            Some(x) => x.clone(),
            None => {
                return Err(DetailedMsg {
                    msg: String::from_str("Invalid probe metadata"),
                    details: String::from_str("missing fps"),
                    src_file: String::from_str(src_file),
                    user_id: String::from_str(user_id),
                });
            },
        };
        let orig_codec = match &f.codec_name {
            Some(x) => x.clone(),
            None => {
                return Err(DetailedMsg {
                    msg: String::from_str("Invalid probe metadata"),
                    details: String::from_str("missing codec"),
                    src_file: String::from_str(src_file),
                    user_id: String::from_str(user_id),
                });
            },
        };
        Ok(Metadata {
            src_file: String::from_str(src_file),
            user_id: String::from_str(user_id),
            total_frames,
            duration_ms,
            fps,
            bitrate,
            orig_codec,
            metadata_all: f.raw_json.clone(),
        })
    }

} // verus!
