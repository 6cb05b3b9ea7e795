//! Text lines of the HUD window: the session hash and the regime indicator.
use crate::text::{decimal, hex_fixed, push_decimal, push_hex_fixed};
use vstd::prelude::*;

verus! {

/// Label of a regime number on the HUD.
pub open spec fn regime_label_text(regime_id: u8) -> Seq<char> {
    if regime_id == 1 {
        "Full Fidelity"@
    } else if regime_id == 2 {
        "High Fidelity"@
    } else if regime_id == 3 {
        "Balanced"@
    } else if regime_id == 4 {
        "Reduced"@
    } else if regime_id == 5 {
        "Phase Shedding"@
    } else {
        "Unknown"@
    }
}

/// The hash line: `H_session: 0x` and sixteen uppercase hex digits.
pub open spec fn hash_line_text(h: u64) -> Seq<char> {
    "H_session: 0x"@ + hex_fixed(h as nat, 16)
}

/// The regime line: `Regime: N/5 (label)`.
pub open spec fn regime_line_text(regime_id: u8) -> Seq<char> {
    "Regime: "@ + decimal(regime_id as nat) + "/5 ("@ + regime_label_text(regime_id) + ")"@
}

/// Label of a regime number on the HUD.
pub fn hud_regime_label(regime_id: u8) -> (s: &'static str)
    ensures
        s@ == regime_label_text(regime_id),
{
    match regime_id {
        1 => "Full Fidelity",
        2 => "High Fidelity",
        3 => "Balanced",
        4 => "Reduced",
        5 => "Phase Shedding",
        _ => "Unknown",
    }
}

/// The session hash line of the HUD.
pub fn hud_hash_line(h_session: u64) -> (s: String)
    ensures
        s@ == hash_line_text(h_session),
{
    let mut out = String::from_str("H_session: 0x");
    push_hex_fixed(&mut out, h_session, 16);
    out
}

/// The regime indicator line of the HUD.
pub fn hud_regime_line(regime_id: u8) -> (s: String)
    ensures
        s@ == regime_line_text(regime_id),
{
    let mut out = String::from_str("Regime: ");
    push_decimal(&mut out, regime_id as u64);
    out.append("/5 (");
    out.append(hud_regime_label(regime_id));
    out.append(")");
    assert(out@ =~= regime_line_text(regime_id));
    out
}

} // verus!
