//! Validation status logic: the rule bitmask, its severity level and the
//! HUD status line.
//!
//! Rules (bit i set = rule i passed):
//! - bit 0: hash continuity
//! - bit 1: orthogonality (soft; counted as passed when the check is off)
//! - bit 2: ghost closure
//! - bit 3: state bounds
use crate::text::{joined, push_joined};
use vstd::prelude::*;

verus! {

/// Number of validation rules.
pub const RULE_COUNT: u8 = 4;

/// Regime in which the orthogonality check is skipped.
pub const THERMAL_REGIME: u8 = 5;

/// Severity level for HUD display.
#[derive(Debug, Clone, Copy, PartialEq, Eq, Structural)]
pub enum StatusLevel {
    /// All rules satisfied (green light)
    Green,
    /// Soft constraint warning (yellow light, e.g., orthogonality drifting)
    Yellow,
    /// Critical failure (red light, e.g., hash mismatch)
    Red,
}

/// Validation status bitmask for real-time HUD display.
#[derive(Debug, Clone, Copy, PartialEq, Eq, Structural)]
pub struct ValidationResult {
    /// Bitmask: bit i = 1 if rule i passed, 0 if failed
    pub status_bits: u8,
    /// Frame number this result corresponds to
    pub frame_count: u64,
    /// Severity: green, yellow or red
    pub status_level: StatusLevel,
}

/// Weight 2^i of bit `i` of a byte.
pub open spec fn bit_weight(i: u8) -> u8 {
    if i == 0 {
        1
    } else if i == 1 {
        2
    } else if i == 2 {
        4
    } else if i == 3 {
        8
    } else if i == 4 {
        16
    } else if i == 5 {
        32
    } else if i == 6 {
        64
    } else {
        128
    }
}

/// Bit `i` of `bits` is set.
pub open spec fn bit_set(bits: u8, i: u8) -> bool {
    i < 8 && (bits / bit_weight(i)) % 2 == 1
}

proof fn lemma_bit_test(b: u8, i: u8)
    requires
        i < 8,
    ensures
        ((b & (1u8 << i)) != 0) == bit_set(b, i),
{
    if i == 0 {
        assert(((b & (1u8 << 0u8)) != 0) == ((b / 1) % 2 == 1)) by (bit_vector);
    } else if i == 1 {
        assert(((b & (1u8 << 1u8)) != 0) == ((b / 2) % 2 == 1)) by (bit_vector);
    } else if i == 2 {
        assert(((b & (1u8 << 2u8)) != 0) == ((b / 4) % 2 == 1)) by (bit_vector);
    } else if i == 3 {
        assert(((b & (1u8 << 3u8)) != 0) == ((b / 8) % 2 == 1)) by (bit_vector);
    } else if i == 4 {
        assert(((b & (1u8 << 4u8)) != 0) == ((b / 16) % 2 == 1)) by (bit_vector);
    } else if i == 5 {
        assert(((b & (1u8 << 5u8)) != 0) == ((b / 32) % 2 == 1)) by (bit_vector);
    } else if i == 6 {
        assert(((b & (1u8 << 6u8)) != 0) == ((b / 64) % 2 == 1)) by (bit_vector);
    } else {
        assert(((b & (1u8 << 7u8)) != 0) == ((b / 128) % 2 == 1)) by (bit_vector);
    }
}

/// The bitmask of four rule outcomes.
pub open spec fn rule_bits(hash_ok: bool, orthogonality_ok: bool, ghost_ok: bool, bounds_ok: bool) -> u8 {
    ((if hash_ok { 1int } else { 0int }) + (if orthogonality_ok { 2int } else { 0int }) + (if ghost_ok {
        4int
    } else {
        0int
    }) + (if bounds_ok { 8int } else { 0int })) as u8
}

/// Severity of a rule bitmask: green when all four rules pass, yellow
/// when the soft orthogonality rule is the only failure and its check is
/// on, red for every other failure.
pub open spec fn status_for(bits: u8, orthogonality_enabled: bool) -> StatusLevel {
    if bits == 0b1111 {
        StatusLevel::Green
    } else if bits == 0b1101 && orthogonality_enabled {
        StatusLevel::Yellow
    } else {
        StatusLevel::Red
    }
}

/// The orthogonality check is on in every regime but the thermal one.
pub open spec fn orthogonality_enabled_in(regime: u8) -> bool {
    regime != THERMAL_REGIME
}

/// Whether the orthogonality check runs in `regime`.
pub fn orthogonality_check_enabled(regime: u8) -> (b: bool)
    ensures
        b == orthogonality_enabled_in(regime),
{
    regime != 5
}

/// Label of a rule.
pub open spec fn rule_name(i: u8) -> Seq<char> {
    if i == 0 {
        "Hash Continuity"@
    } else if i == 1 {
        "Orthogonality"@
    } else if i == 2 {
        "Ghost Closure"@
    } else {
        "State Bounds"@
    }
}

/// Text of a status line.
pub open spec fn status_line(r: ValidationResult) -> Seq<char> {
    match r.status_level {
        StatusLevel::Green => "✅ GREEN: Determinism Parity OK | Manifold Stability OK"@,
        StatusLevel::Yellow => "🟡 YELLOW: "@ + joined(r.failed_rule_names(), ", "@)
            + " (soft warning, not fatal)"@,
        StatusLevel::Red => "🔴 RED: "@ + joined(r.failed_rule_names(), ", "@)
            + " (session parity compromised)"@,
    }
}

proof fn lemma_rule_bits(h: bool, o: bool, g: bool, b: bool, bits: u8)
    requires
        bits == ((if h { 1u8 } else { 0u8 }) | (if o { 2u8 } else { 0u8 }) | (if g { 4u8 } else {
            0u8
        }) | (if b { 8u8 } else { 0u8 })),
    ensures
        bits == rule_bits(h, o, g, b),
        bit_set(bits, 0) == h,
        bit_set(bits, 1) == o,
        bit_set(bits, 2) == g,
        bit_set(bits, 3) == b,
        (bits % 2 == 0) == !h,
        ((bits / 2) % 2 == 0) == !o,
        (bits == 0b1111) == (h && o && g && b),
        (bits == 0b1101) == (h && !o && g && b),
        status_for(bits, true) == status_of_rules(h, o, g, b, true),
        status_for(bits, false) == status_of_rules(h, o, g, b, false),
{
    let x0: u8 = if h { 1u8 } else { 0u8 };
    let x1: u8 = if o { 2u8 } else { 0u8 };
    let x2: u8 = if g { 4u8 } else { 0u8 };
    let x3: u8 = if b { 8u8 } else { 0u8 };
    assert(bits == x0 + x1 + x2 + x3) by (bit_vector)
        requires
            x0 == 0 || x0 == 1,
            x1 == 0 || x1 == 2,
            x2 == 0 || x2 == 4,
            x3 == 0 || x3 == 8,
            bits == x0 | x1 | x2 | x3,
    ;
}

/// Severity of four rule outcomes: green when all pass, yellow when the
/// soft orthogonality rule is the only failure and its check is on, red for
/// every other failure.
pub open spec fn status_of_rules(h: bool, o: bool, g: bool, b: bool, enabled: bool) -> StatusLevel {
    if h && o && g && b {
        StatusLevel::Green
    } else if h && !o && g && b && enabled {
        StatusLevel::Yellow
    } else {
        StatusLevel::Red
    }
}

impl ValidationResult {
    /// Rule `i` passed.
    pub open spec fn passes(self, i: u8) -> bool {
        i < RULE_COUNT && bit_set(self.status_bits, i)
    }

    /// Labels of the failed rules, in rule order.
    pub open spec fn failed_rule_names(self) -> Seq<Seq<char>> {
        (if !self.passes(0) { seq![rule_name(0)] } else { Seq::empty() }) + (if !self.passes(1) {
            seq![rule_name(1)]
        } else {
            Seq::empty()
        }) + (if !self.passes(2) { seq![rule_name(2)] } else { Seq::empty() }) + (if !self.passes(
            3,
        ) {
            seq![rule_name(3)]
        } else {
            Seq::empty()
        })
    }

    /// Build the result of a frame's validation from the four rule outcomes.
    /// When the orthogonality check is off, its rule counts as passed.
    pub fn from_rules(
        hash_ok: bool,
        orthogonal: bool,
        ghost_ok: bool,
        bounds_ok: bool,
        orthogonality_enabled: bool,
        frame_count: u64,
    ) -> (r: ValidationResult)
        ensures
            r.status_bits == rule_bits(
                hash_ok,
                !orthogonality_enabled || orthogonal,
                ghost_ok,
                bounds_ok,
            ),
            r.passes(0) == hash_ok,
            r.passes(1) == (!orthogonality_enabled || orthogonal),
            r.passes(2) == ghost_ok,
            r.passes(3) == bounds_ok,
            r.status_level == status_for(r.status_bits, orthogonality_enabled),
            r.status_level == status_of_rules(
                hash_ok,
                !orthogonality_enabled || orthogonal,
                ghost_ok,
                bounds_ok,
                orthogonality_enabled,
            ),
            r.frame_count == frame_count,
    {
        let b0: u8 = if hash_ok { 1 } else { 0 };
        let b1: u8 = if !orthogonality_enabled || orthogonal { 2 } else { 0 };
        let b2: u8 = if ghost_ok { 4 } else { 0 };
        let b3: u8 = if bounds_ok { 8 } else { 0 };
        let bits = b0 | b1 | b2 | b3;
        proof {
            lemma_rule_bits(hash_ok, !orthogonality_enabled || orthogonal, ghost_ok, bounds_ok, bits);
        }
        let status_level = if bits == 0b1111 {
            StatusLevel::Green
        } else if bits == 0b1101 && orthogonality_enabled {
            StatusLevel::Yellow
        } else {
            StatusLevel::Red
        };
        ValidationResult { status_bits: bits, frame_count, status_level }
    }

    /// Check if a specific rule passed.
    pub fn rule_passed(&self, rule_index: u8) -> (b: bool)
        ensures
            b == self.passes(rule_index),
    {
        if rule_index < 4 {
            proof {
                lemma_bit_test(self.status_bits, rule_index);
            }
        }
        rule_index < 4 && (self.status_bits & (1 << rule_index)) != 0
    }

    /// Get all failed rules as a list.
    pub fn failed_rules(&self) -> (v: Vec<&'static str>)
        ensures
            v@.map_values(|s: &str| s@) == self.failed_rule_names(),
    {
        let mut failed: Vec<&'static str> = Vec::new();
        if !self.rule_passed(0) {
            failed.push("Hash Continuity");
        }
        if !self.rule_passed(1) {
            failed.push("Orthogonality");
        }
        if !self.rule_passed(2) {
            failed.push("Ghost Closure");
        }
        if !self.rule_passed(3) {
            failed.push("State Bounds");
        }
        assert(failed@.map_values(|s: &str| s@) =~= self.failed_rule_names());
        failed
    }

    /// Real-time HUD status string.
    pub fn status_text(&self) -> (s: String)
        ensures
            s@ == status_line(*self),
    {
        match self.status_level {
            StatusLevel::Green => String::from_str(
                "✅ GREEN: Determinism Parity OK | Manifold Stability OK",
            ),
            StatusLevel::Yellow => {
                let failed = self.failed_rules();
                let mut out = String::from_str("🟡 YELLOW: ");
                push_joined(&mut out, &failed, ", ");
                out.append(" (soft warning, not fatal)");
                assert(out@ =~= status_line(*self));
                out
            },
            StatusLevel::Red => {
                let failed = self.failed_rules();
                let mut out = String::from_str("🔴 RED: ");
                push_joined(&mut out, &failed, ", ");
                out.append(" (session parity compromised)");
                assert(out@ =~= status_line(*self));
                out
            },
        }
    }
}

/// Position of a rule label in rule order (4 for any other text).
pub open spec fn label_rank(s: Seq<char>) -> int {
    if s == "Hash Continuity"@ {
        0
    } else if s == "Orthogonality"@ {
        1
    } else if s == "Ghost Closure"@ {
        2
    } else if s == "State Bounds"@ {
        3
    } else {
        4
    }
}

/// The failed-rule list names exactly the rules whose bit is clear, each
/// once, in rule order: "Hash Continuity" for bit 0, "Orthogonality" for
/// bit 1, "Ghost Closure" for bit 2 and "State Bounds" for bit 3.
pub proof fn lemma_failed_rules_name_the_clear_bits(r: ValidationResult)
    ensures
        r.failed_rule_names().contains("Hash Continuity"@) <==> r.status_bits % 2 == 0,
        r.failed_rule_names().contains("Orthogonality"@) <==> (r.status_bits / 2) % 2 == 0,
        r.failed_rule_names().contains("Ghost Closure"@) <==> (r.status_bits / 4) % 2 == 0,
        r.failed_rule_names().contains("State Bounds"@) <==> (r.status_bits / 8) % 2 == 0,
        r.failed_rule_names().len() == (if r.status_bits % 2 == 0 { 1int } else { 0int }) + (if (
        r.status_bits / 2) % 2 == 0 {
            1int
        } else {
            0int
        }) + (if (r.status_bits / 4) % 2 == 0 { 1int } else { 0int }) + (if (r.status_bits / 8) % 2
            == 0 {
            1int
        } else {
            0int
        }),
        forall|k: int|
            0 <= k < r.failed_rule_names().len() ==> label_rank(#[trigger] r.failed_rule_names()[k])
                < 4,
        forall|k1: int, k2: int|
            0 <= k1 < k2 < r.failed_rule_names().len() ==> label_rank(
                #[trigger] r.failed_rule_names()[k1],
            ) < label_rank(#[trigger] r.failed_rule_names()[k2]),
{
    reveal_strlit("Hash Continuity");
    reveal_strlit("Orthogonality");
    reveal_strlit("Ghost Closure");
    reveal_strlit("State Bounds");
    assert("Hash Continuity"@[0] == 'H');
    assert("Orthogonality"@[0] == 'O');
    assert("Ghost Closure"@[0] == 'G');
    assert("State Bounds"@[0] == 'S');
    let names = r.failed_rule_names();
    let f0 = !r.passes(0);
    let f1 = !r.passes(1);
    let f2 = !r.passes(2);
    let f3 = !r.passes(3);
    assert(label_rank("Hash Continuity"@) == 0);
    assert(label_rank("Orthogonality"@) == 1);
    assert(label_rank("Ghost Closure"@) == 2);
    assert(label_rank("State Bounds"@) == 3);
    if f0 {
        if f1 {
            if f2 {
                if f3 {
                    assert(names =~= seq!["Hash Continuity"@, "Orthogonality"@, "Ghost Closure"@, "State Bounds"@]);
                    assert(names[0] == "Hash Continuity"@);
                    assert(names[1] == "Orthogonality"@);
                    assert(names[2] == "Ghost Closure"@);
                    assert(names[3] == "State Bounds"@);
                } else {
                    assert(names =~= seq!["Hash Continuity"@, "Orthogonality"@, "Ghost Closure"@]);
                    assert(names[0] == "Hash Continuity"@);
                    assert(names[1] == "Orthogonality"@);
                    assert(names[2] == "Ghost Closure"@);
                }
            } else {
                if f3 {
                    assert(names =~= seq!["Hash Continuity"@, "Orthogonality"@, "State Bounds"@]);
                    assert(names[0] == "Hash Continuity"@);
                    assert(names[1] == "Orthogonality"@);
                    assert(names[2] == "State Bounds"@);
                } else {
                    assert(names =~= seq!["Hash Continuity"@, "Orthogonality"@]);
                    assert(names[0] == "Hash Continuity"@);
                    assert(names[1] == "Orthogonality"@);
                }
            }
        } else {
            if f2 {
                if f3 {
                    assert(names =~= seq!["Hash Continuity"@, "Ghost Closure"@, "State Bounds"@]);
                    assert(names[0] == "Hash Continuity"@);
                    assert(names[1] == "Ghost Closure"@);
                    assert(names[2] == "State Bounds"@);
                } else {
                    assert(names =~= seq!["Hash Continuity"@, "Ghost Closure"@]);
                    assert(names[0] == "Hash Continuity"@);
                    assert(names[1] == "Ghost Closure"@);
                }
            } else {
                if f3 {
                    assert(names =~= seq!["Hash Continuity"@, "State Bounds"@]);
                    assert(names[0] == "Hash Continuity"@);
                    assert(names[1] == "State Bounds"@);
                } else {
                    assert(names =~= seq!["Hash Continuity"@]);
                    assert(names[0] == "Hash Continuity"@);
                }
            }
        }
    } else {
        if f1 {
            if f2 {
                if f3 {
                    assert(names =~= seq!["Orthogonality"@, "Ghost Closure"@, "State Bounds"@]);
                    assert(names[0] == "Orthogonality"@);
                    assert(names[1] == "Ghost Closure"@);
                    assert(names[2] == "State Bounds"@);
                } else {
                    assert(names =~= seq!["Orthogonality"@, "Ghost Closure"@]);
                    assert(names[0] == "Orthogonality"@);
                    assert(names[1] == "Ghost Closure"@);
                }
            } else {
                if f3 {
                    assert(names =~= seq!["Orthogonality"@, "State Bounds"@]);
                    assert(names[0] == "Orthogonality"@);
                    assert(names[1] == "State Bounds"@);
                } else {
                    assert(names =~= seq!["Orthogonality"@]);
                    assert(names[0] == "Orthogonality"@);
                }
            }
        } else {
            if f2 {
                if f3 {
                    assert(names =~= seq!["Ghost Closure"@, "State Bounds"@]);
                    assert(names[0] == "Ghost Closure"@);
                    assert(names[1] == "State Bounds"@);
                } else {
                    assert(names =~= seq!["Ghost Closure"@]);
                    assert(names[0] == "Ghost Closure"@);
                }
            } else {
                if f3 {
                    assert(names =~= seq!["State Bounds"@]);
                    assert(names[0] == "State Bounds"@);
                } else {
                    assert(names =~= Seq::<Seq<char>>::empty());
                }
            }
        }
    }
}

/// A result is green exactly when all four rules pass.
pub proof fn lemma_green_iff_all_pass(h: bool, o: bool, g: bool, b: bool, enabled: bool)
    ensures
        status_for(rule_bits(h, o, g, b), enabled) == StatusLevel::Green <==> (h && o && g && b),
{
    let bits = ((if h { 1u8 } else { 0u8 }) | (if o { 2u8 } else { 0u8 }) | (if g { 4u8 } else {
        0u8
    }) | (if b { 8u8 } else { 0u8 }));
    lemma_rule_bits(h, o, g, b, bits);
}

/// A hash continuity failure is always red.
pub proof fn lemma_hash_failure_is_red(o: bool, g: bool, b: bool, enabled: bool)
    ensures
        status_for(rule_bits(false, o, g, b), enabled) == StatusLevel::Red,
{
    let bits = ((if false { 1u8 } else { 0u8 }) | (if o { 2u8 } else { 0u8 }) | (if g {
        4u8
    } else {
        0u8
    }) | (if b { 8u8 } else { 0u8 }));
    lemma_rule_bits(false, o, g, b, bits);
}

/// Yellow means exactly: hash continuity, ghost closure and state bounds
/// hold, the orthogonality check is on, and it failed. A broken ghost
/// closure or state bound is always red, and with the check off (thermal
/// regime) a result is never yellow.
pub proof fn lemma_yellow_iff_only_soft_failure(h: bool, o: bool, g: bool, b: bool, enabled: bool)
    ensures
        status_for(rule_bits(h, !enabled || o, g, b), enabled) == StatusLevel::Yellow <==> (h
            && g && b && enabled && !o),
        !g || !b ==> status_for(rule_bits(h, !enabled || o, g, b), enabled) == StatusLevel::Red,
        !enabled ==> status_for(rule_bits(h, !enabled || o, g, b), enabled) != StatusLevel::Yellow,
{
    let oo = !enabled || o;
    let bits = ((if h { 1u8 } else { 0u8 }) | (if oo { 2u8 } else { 0u8 }) | (if g { 4u8 } else {
        0u8
    }) | (if b { 8u8 } else { 0u8 }));
    lemma_rule_bits(h, oo, g, b, bits);
}

} // verus!
