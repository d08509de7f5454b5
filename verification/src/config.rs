//! The persisted application configuration and its on-disk document.
//!
//! The document is a small, human-readable header naming the four window
//! geometry fields, followed by the UI-memory snapshot verbatim:
//!
//! ```text
//! pos_x: +0000000120
//! pos_y: -0000000045
//! width: 0000000800
//! height: 0000000600
//! memory:
//! <snapshot bytes to end of file>
//! ```
//!
//! Rendering and parsing are exact inverses: `parse_config` accepts a
//! byte string if and only if it is `config_bytes` of some
//! configuration, and then returns exactly that configuration.  A
//! malformed document (truncated, garbled, out-of-range fields) parses
//! to `None`; it never panics and never returns a made-up value.

use crate::decimal::{dec10, fmt_i32, fmt_u32, parse_i32_at, parse_u32_at, sig10};
use vstd::prelude::*;

verus! {

/// Saved window geometry: physical position and inner size.
#[derive(Clone, Copy, PartialEq, Eq, Structural, Debug)]
pub struct WindowAttributes {
    pub pos_x: i32,
    pub pos_y: i32,
    pub width: u32,
    pub height: u32,
}

/// Everything the shell persists across runs: window geometry and the
/// UI library's opaque memory snapshot, carried as uninterpreted bytes.
#[derive(Debug)]
pub struct AppConfig {
    pub window_attributes: WindowAttributes,
    pub memory: Vec<u8>,
}

/// `"pos_x: "`
pub open spec fn lbl_pos_x() -> Seq<u8> {
    seq![0x70u8, 0x6Fu8, 0x73u8, 0x5Fu8, 0x78u8, 0x3Au8, 0x20u8]
}

/// `"pos_y: "`
pub open spec fn lbl_pos_y() -> Seq<u8> {
    seq![0x70u8, 0x6Fu8, 0x73u8, 0x5Fu8, 0x79u8, 0x3Au8, 0x20u8]
}

/// `"width: "`
pub open spec fn lbl_width() -> Seq<u8> {
    seq![0x77u8, 0x69u8, 0x64u8, 0x74u8, 0x68u8, 0x3Au8, 0x20u8]
}

/// `"height: "`
pub open spec fn lbl_height() -> Seq<u8> {
    seq![0x68u8, 0x65u8, 0x69u8, 0x67u8, 0x68u8, 0x74u8, 0x3Au8, 0x20u8]
}

/// `"memory:"` followed by a newline.
pub open spec fn lbl_memory() -> Seq<u8> {
    seq![0x6Du8, 0x65u8, 0x6Du8, 0x6Fu8, 0x72u8, 0x79u8, 0x3Au8, 0x0Au8]
}

/// The 83-byte document header for geometry `a`.
pub open spec fn header_bytes(a: WindowAttributes) -> Seq<u8> {
    lbl_pos_x() + sig10(a.pos_x as int) + seq![0x0Au8] + lbl_pos_y() + sig10(a.pos_y as int)
        + seq![0x0Au8] + lbl_width() + dec10(a.width as nat) + seq![0x0Au8] + lbl_height()
        + dec10(a.height as nat) + seq![0x0Au8] + lbl_memory()
}

/// The complete rendered document for geometry `a` and memory snapshot
/// `m`.
pub open spec fn config_bytes(a: WindowAttributes, m: Seq<u8>) -> Seq<u8> {
    header_bytes(a) + m
}

/// Where each part of the document sits.
pub proof fn lemma_config_bytes_facts(a: WindowAttributes, m: Seq<u8>)
    ensures
        config_bytes(a, m).len() == 83 + m.len(),
        config_bytes(a, m)[0] == 0x70u8,
        config_bytes(a, m)[1] == 0x6Fu8,
        config_bytes(a, m)[2] == 0x73u8,
        config_bytes(a, m)[3] == 0x5Fu8,
        config_bytes(a, m)[4] == 0x78u8,
        config_bytes(a, m)[5] == 0x3Au8,
        config_bytes(a, m)[6] == 0x20u8,
        forall|i: int| 0 <= i < 11 ==> config_bytes(a, m)[7 + i] == sig10(a.pos_x as int)[i],
        config_bytes(a, m)[18] == 0x0Au8,
        config_bytes(a, m)[19] == 0x70u8,
        config_bytes(a, m)[20] == 0x6Fu8,
        config_bytes(a, m)[21] == 0x73u8,
        config_bytes(a, m)[22] == 0x5Fu8,
        config_bytes(a, m)[23] == 0x79u8,
        config_bytes(a, m)[24] == 0x3Au8,
        config_bytes(a, m)[25] == 0x20u8,
        forall|i: int| 0 <= i < 11 ==> config_bytes(a, m)[26 + i] == sig10(a.pos_y as int)[i],
        config_bytes(a, m)[37] == 0x0Au8,
        config_bytes(a, m)[38] == 0x77u8,
        config_bytes(a, m)[39] == 0x69u8,
        config_bytes(a, m)[40] == 0x64u8,
        config_bytes(a, m)[41] == 0x74u8,
        config_bytes(a, m)[42] == 0x68u8,
        config_bytes(a, m)[43] == 0x3Au8,
        config_bytes(a, m)[44] == 0x20u8,
        forall|i: int| 0 <= i < 10 ==> config_bytes(a, m)[45 + i] == dec10(a.width as nat)[i],
        config_bytes(a, m)[55] == 0x0Au8,
        config_bytes(a, m)[56] == 0x68u8,
        config_bytes(a, m)[57] == 0x65u8,
        config_bytes(a, m)[58] == 0x69u8,
        config_bytes(a, m)[59] == 0x67u8,
        config_bytes(a, m)[60] == 0x68u8,
        config_bytes(a, m)[61] == 0x74u8,
        config_bytes(a, m)[62] == 0x3Au8,
        config_bytes(a, m)[63] == 0x20u8,
        forall|i: int| 0 <= i < 10 ==> config_bytes(a, m)[64 + i] == dec10(a.height as nat)[i],
        config_bytes(a, m)[74] == 0x0Au8,
        config_bytes(a, m)[75] == 0x6Du8,
        config_bytes(a, m)[76] == 0x65u8,
        config_bytes(a, m)[77] == 0x6Du8,
        config_bytes(a, m)[78] == 0x6Fu8,
        config_bytes(a, m)[79] == 0x72u8,
        config_bytes(a, m)[80] == 0x79u8,
        config_bytes(a, m)[81] == 0x3Au8,
        config_bytes(a, m)[82] == 0x0Au8,
        forall|i: int| 0 <= i < m.len() ==> config_bytes(a, m)[83 + i] == m[i],
{
    assert(sig10(a.pos_x as int).len() == 11);
    assert(sig10(a.pos_y as int).len() == 11);
    assert(dec10(a.width as nat).len() == 10);
    assert(dec10(a.height as nat).len() == 10);
    assert(header_bytes(a).len() == 83);
}

/// Law: the rendered document determines the configuration.  Two
/// configurations with the same document bytes have the same geometry
/// fields and the same memory snapshot.
pub proof fn lemma_config_bytes_injective(
    a1: WindowAttributes,
    m1: Seq<u8>,
    a2: WindowAttributes,
    m2: Seq<u8>,
)
    requires
        config_bytes(a1, m1) == config_bytes(a2, m2),
    ensures
        a1 == a2,
        m1 == m2,
{
    lemma_config_bytes_facts(a1, m1);
    lemma_config_bytes_facts(a2, m2);
    crate::decimal::lemma_pow10_10();
    let cb = config_bytes(a1, m1);
    assert(sig10(a1.pos_x as int) =~= sig10(a2.pos_x as int)) by {
        assert forall|i: int| 0 <= i < 11 implies sig10(a1.pos_x as int)[i] == sig10(
            a2.pos_x as int,
        )[i] by {
            assert(config_bytes(a1, m1)[7 + i] == sig10(a1.pos_x as int)[i]);
            assert(config_bytes(a2, m2)[7 + i] == sig10(a2.pos_x as int)[i]);
        }
        assert(sig10(a1.pos_x as int).len() == 11);
        assert(sig10(a2.pos_x as int).len() == 11);
    }
    crate::decimal::lemma_sig10_injective(a1.pos_x as int, a2.pos_x as int);
    assert(sig10(a1.pos_y as int) =~= sig10(a2.pos_y as int)) by {
        assert forall|i: int| 0 <= i < 11 implies sig10(a1.pos_y as int)[i] == sig10(
            a2.pos_y as int,
        )[i] by {
            assert(config_bytes(a1, m1)[26 + i] == sig10(a1.pos_y as int)[i]);
            assert(config_bytes(a2, m2)[26 + i] == sig10(a2.pos_y as int)[i]);
        }
        assert(sig10(a1.pos_y as int).len() == 11);
        assert(sig10(a2.pos_y as int).len() == 11);
    }
    crate::decimal::lemma_sig10_injective(a1.pos_y as int, a2.pos_y as int);
    assert(dec10(a1.width as nat) =~= dec10(a2.width as nat)) by {
        assert forall|i: int| 0 <= i < 10 implies dec10(a1.width as nat)[i] == dec10(
            a2.width as nat,
        )[i] by {
            assert(config_bytes(a1, m1)[45 + i] == dec10(a1.width as nat)[i]);
            assert(config_bytes(a2, m2)[45 + i] == dec10(a2.width as nat)[i]);
        }
    }
    crate::decimal::lemma_dec10_injective(a1.width as nat, a2.width as nat);
    assert(dec10(a1.height as nat) =~= dec10(a2.height as nat)) by {
        assert forall|i: int| 0 <= i < 10 implies dec10(a1.height as nat)[i] == dec10(
            a2.height as nat,
        )[i] by {
            assert(config_bytes(a1, m1)[64 + i] == dec10(a1.height as nat)[i]);
            assert(config_bytes(a2, m2)[64 + i] == dec10(a2.height as nat)[i]);
        }
    }
    crate::decimal::lemma_dec10_injective(a1.height as nat, a2.height as nat);
    assert(m1 =~= m2) by {
        assert(m1.len() == m2.len());
        assert forall|i: int| 0 <= i < m1.len() implies m1[i] == m2[i] by {
            assert(config_bytes(a1, m1)[83 + i] == m1[i]);
            assert(config_bytes(a2, m2)[83 + i] == m2[i]);
        }
    }
}

/// Window geometry to open with: the saved position and size when a
/// config document was loaded, the default size — and no fixed position
/// — otherwise.
#[derive(Clone, Copy, PartialEq, Eq, Structural, Debug)]
pub struct WindowSetup {
    pub has_position: bool,
    pub pos_x: i32,
    pub pos_y: i32,
    pub width: u32,
    pub height: u32,
}

/// Decide the startup window geometry from the load attempt's outcome.
pub fn window_setup(loaded: &Option<AppConfig>) -> (r: WindowSetup)
    ensures
        match loaded {
            Some(c) => r.has_position && r.pos_x == c.window_attributes.pos_x && r.pos_y
                == c.window_attributes.pos_y && r.width == c.window_attributes.width && r.height
                == c.window_attributes.height,
            None => !r.has_position && r.width == crate::INITIAL_WIDTH && r.height
                == crate::INITIAL_HEIGHT,
        },
{
    match loaded {
        Some(c) => WindowSetup {
            has_position: true,
            pos_x: c.window_attributes.pos_x,
            pos_y: c.window_attributes.pos_y,
            width: c.window_attributes.width,
            height: c.window_attributes.height,
        },
        None => WindowSetup {
            has_position: false,
            pos_x: 0,
            pos_y: 0,
            width: crate::INITIAL_WIDTH,
            height: crate::INITIAL_HEIGHT,
        },
    }
}

/// Collect the values to persist at shutdown: the window's physical
/// position (the origin when the platform reports none), its inner
/// size, and the UI memory snapshot.
pub fn snapshot_config(
    position: Option<(i32, i32)>,
    width: u32,
    height: u32,
    memory: Vec<u8>,
) -> (c: AppConfig)
    ensures
        c.window_attributes.pos_x == (match position {
            Some(p) => p.0,
            None => 0,
        }),
        c.window_attributes.pos_y == (match position {
            Some(p) => p.1,
            None => 0,
        }),
        c.window_attributes.width == width,
        c.window_attributes.height == height,
        c.memory@ == memory@,
{
    let (pos_x, pos_y) = match position {
        Some(p) => p,
        None => (0, 0),
    };
    AppConfig { window_attributes: WindowAttributes { pos_x, pos_y, width, height }, memory }
}

/// Render a configuration as its on-disk document.
pub fn render_config(c: &AppConfig) -> (r: Vec<u8>)
    ensures
        r@ == config_bytes(c.window_attributes, c.memory@),
{
    let a = c.window_attributes;
    let mut out: Vec<u8> = Vec::new();
    out.push(0x70);
    out.push(0x6F);
    out.push(0x73);
    out.push(0x5F);
    out.push(0x78);
    out.push(0x3A);
    out.push(0x20);
    proof {
        assert(out@ =~= lbl_pos_x());
    }
    let mut f = fmt_i32(a.pos_x);
    out.append(&mut f);
    out.push(0x0A);
    proof {
        assert(out@ =~= lbl_pos_x() + sig10(a.pos_x as int) + seq![0x0Au8]);
    }
    let ghost line1 = out@;
    out.push(0x70);
    out.push(0x6F);
    out.push(0x73);
    out.push(0x5F);
    out.push(0x79);
    out.push(0x3A);
    out.push(0x20);
    proof {
        assert(out@ =~= line1 + lbl_pos_y());
    }
    let mut f = fmt_i32(a.pos_y);
    out.append(&mut f);
    out.push(0x0A);
    proof {
        assert(out@ =~= line1 + lbl_pos_y() + sig10(a.pos_y as int) + seq![0x0Au8]);
    }
    let ghost line2 = out@;
    out.push(0x77);
    out.push(0x69);
    out.push(0x64);
    out.push(0x74);
    out.push(0x68);
    out.push(0x3A);
    out.push(0x20);
    proof {
        assert(out@ =~= line2 + lbl_width());
    }
    let mut f = fmt_u32(a.width);
    out.append(&mut f);
    out.push(0x0A);
    proof {
        assert(out@ =~= line2 + lbl_width() + dec10(a.width as nat) + seq![0x0Au8]);
    }
    let ghost line3 = out@;
    out.push(0x68);
    out.push(0x65);
    out.push(0x69);
    out.push(0x67);
    out.push(0x68);
    out.push(0x74);
    out.push(0x3A);
    out.push(0x20);
    proof {
        assert(out@ =~= line3 + lbl_height());
    }
    let mut f = fmt_u32(a.height);
    out.append(&mut f);
    out.push(0x0A);
    proof {
        assert(out@ =~= line3 + lbl_height() + dec10(a.height as nat) + seq![0x0Au8]);
    }
    let ghost line4 = out@;
    out.push(0x6D);
    out.push(0x65);
    out.push(0x6D);
    out.push(0x6F);
    out.push(0x72);
    out.push(0x79);
    out.push(0x3A);
    out.push(0x0A);
    proof {
        assert(out@ =~= line4 + lbl_memory());
        assert(out@ =~= header_bytes(a));
    }
    let ghost header = out@;
    let n = c.memory.len();
    let mut i: usize = 0;
    while i < n
        invariant
            n == c.memory@.len(),
            i <= n,
            out@ == header + c.memory@.subrange(0, i as int),
            header == header_bytes(a),
        decreases n - i,
    {
        out.push(c.memory[i]);
        proof {
            assert(out@ =~= header + c.memory@.subrange(0, i + 1));
        }
        i = i + 1;
    }
    proof {
        assert(c.memory@.subrange(0, n as int) =~= c.memory@);
        assert(out@ =~= config_bytes(c.window_attributes, c.memory@));
    }
    out
}

/// Parse an on-disk document.  Returns `Some` exactly on the byte
/// strings that `render_config` produces, and then returns the
/// configuration that was rendered; every other input — truncated,
/// mislabelled, out-of-range or otherwise malformed — yields `None`.
#[verifier::rlimit(100)]
pub fn parse_config(s: &[u8]) -> (r: Option<AppConfig>)
    ensures
        match r {
            Some(c) => s@ == config_bytes(c.window_attributes, c.memory@),
            None => forall|a: WindowAttributes, m: Seq<u8>| s@ != config_bytes(a, m),
        },
        forall|a: WindowAttributes, m: Seq<u8>|
            s@ == config_bytes(a, m) ==> (r matches Some(c) && c.window_attributes == a
                && c.memory@ == m),
{
    let slen: usize = s.len();
    if slen < 83 {
        proof {
            assert forall|a: WindowAttributes, m: Seq<u8>| s@ != config_bytes(a, m) by {
                lemma_config_bytes_facts(a, m);
            }
        }
        return None;
    }
    let labels_ok = s[0] == 0x70 && s[1] == 0x6F && s[2] == 0x73 && s[3] == 0x5F && s[4] == 0x78
        && s[5] == 0x3A && s[6] == 0x20 && s[18] == 0x0A && s[19] == 0x70 && s[20] == 0x6F && s[21]
        == 0x73 && s[22] == 0x5F && s[23] == 0x79 && s[24] == 0x3A && s[25] == 0x20 && s[37]
        == 0x0A && s[38] == 0x77 && s[39] == 0x69 && s[40] == 0x64 && s[41] == 0x74 && s[42]
        == 0x68 && s[43] == 0x3A && s[44] == 0x20 && s[55] == 0x0A && s[56] == 0x68 && s[57]
        == 0x65 && s[58] == 0x69 && s[59] == 0x67 && s[60] == 0x68 && s[61] == 0x74 && s[62]
        == 0x3A && s[63] == 0x20 && s[74] == 0x0A && s[75] == 0x6D && s[76] == 0x65 && s[77]
        == 0x6D && s[78] == 0x6F && s[79] == 0x72 && s[80] == 0x79 && s[81] == 0x3A && s[82]
        == 0x0A;
    if !labels_ok {
        proof {
            assert forall|a: WindowAttributes, m: Seq<u8>| s@ != config_bytes(a, m) by {
                lemma_config_bytes_facts(a, m);
            }
        }
        return None;
    }
    let pos_x = match parse_i32_at(s, 7) {
        Some(v) => v,
        None => {
            proof {
                assert forall|a: WindowAttributes, m: Seq<u8>| s@ != config_bytes(a, m) by {
                    lemma_config_bytes_facts(a, m);
                    if s@ == config_bytes(a, m) {
                        assert(s@.subrange(7, 18) =~= sig10(a.pos_x as int));
                    }
                }
            }
            return None;
        },
    };
    let pos_y = match parse_i32_at(s, 26) {
        Some(v) => v,
        None => {
            proof {
                assert forall|a: WindowAttributes, m: Seq<u8>| s@ != config_bytes(a, m) by {
                    lemma_config_bytes_facts(a, m);
                    if s@ == config_bytes(a, m) {
                        assert(s@.subrange(26, 37) =~= sig10(a.pos_y as int));
                    }
                }
            }
            return None;
        },
    };
    let width = match parse_u32_at(s, 45) {
        Some(v) => v,
        None => {
            proof {
                assert forall|a: WindowAttributes, m: Seq<u8>| s@ != config_bytes(a, m) by {
                    lemma_config_bytes_facts(a, m);
                    if s@ == config_bytes(a, m) {
                        assert(s@.subrange(45, 55) =~= dec10(a.width as nat));
                    }
                }
            }
            return None;
        },
    };
    let height = match parse_u32_at(s, 64) {
        Some(v) => v,
        None => {
            proof {
                assert forall|a: WindowAttributes, m: Seq<u8>| s@ != config_bytes(a, m) by {
                    lemma_config_bytes_facts(a, m);
                    if s@ == config_bytes(a, m) {
                        assert(s@.subrange(64, 74) =~= dec10(a.height as nat));
                    }
                }
            }
            return None;
        },
    };
    let mut mem: Vec<u8> = Vec::new();
    let mut i: usize = 83;
    while i < slen
        invariant
            83 <= i <= slen,
            slen == s@.len(),
            mem@ == s@.subrange(83, i as int),
        decreases slen - i,
    {
        mem.push(s[i]);
        proof {
            assert(mem@ =~= s@.subrange(83, i + 1));
        }
        i = i + 1;
    }
    let wa = WindowAttributes { pos_x, pos_y, width, height };
    let cfg = AppConfig { window_attributes: wa, memory: mem };
    proof {
        lemma_config_bytes_facts(wa, cfg.memory@);
        assert(s@.subrange(7, 18) == sig10(pos_x as int));
        assert(s@.subrange(26, 37) == sig10(pos_y as int));
        assert(s@.subrange(45, 55) == dec10(width as nat));
        assert(s@.subrange(64, 74) == dec10(height as nat));
        assert(s@ =~= config_bytes(wa, cfg.memory@)) by {
            assert(cfg.memory@ == s@.subrange(83, slen as int));
            assert forall|i: int| 0 <= i < s@.len() implies s@[i] == config_bytes(
                wa,
                cfg.memory@,
            )[i] by {
                if 7 <= i < 18 {
                    assert(s@[i] == s@.subrange(7, 18)[i - 7]);
                } else if 26 <= i < 37 {
                    assert(s@[i] == s@.subrange(26, 37)[i - 26]);
                } else if 45 <= i < 55 {
                    assert(s@[i] == s@.subrange(45, 55)[i - 45]);
                } else if 64 <= i < 74 {
                    assert(s@[i] == s@.subrange(64, 74)[i - 64]);
                } else if 83 <= i {
                    assert(s@[i] == s@.subrange(83, slen as int)[i - 83]);
                }
            }
        }
        assert forall|a: WindowAttributes, m: Seq<u8>| s@ == config_bytes(a, m) implies a == wa
            && m == cfg.memory@ by {
            lemma_config_bytes_injective(a, m, wa, cfg.memory@);
        }
    }
    Some(cfg)
}

} // verus!
