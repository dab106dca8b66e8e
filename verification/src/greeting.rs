//! The server greeting grammar: `* (OK / PREAUTH / BYE) resp-text CRLF`.

use vstd::prelude::*;
use crate::chars::eq_ci;
use crate::code::{p_resp_text, x_resp_text};
use crate::kw;
use crate::tok::{lemma_tok_bounds, p_atom, sp_at, sp_at_x, x_atom};
use crate::types::{Greeting, GreetingKind, GreetingM, greeting_m, ocode_m};

verus! {

broadcast use vstd::slice::axiom_spec_len;

/// Parses one complete greeting frame (which ends with CRLF).
pub open spec fn p_greeting(f: Seq<u8>) -> Option<GreetingM> {
    if f.len() >= 2 && f[0] == 0x2au8 && sp_at(f, 1) {
        match p_atom(f, 2) {
            Some((j, a)) => {
                let kind = if eq_ci(a, kw::kw_ok()) {
                    Some(GreetingKind::Okay)
                } else if eq_ci(a, kw::kw_preauth()) {
                    Some(GreetingKind::PreAuth)
                } else if eq_ci(a, kw::kw_bye()) {
                    Some(GreetingKind::Bye)
                } else {
                    None
                };
                match kind {
                    Some(k) => if sp_at(f, j) {
                        match p_resp_text(f, j + 1) {
                            Some((e, c, t)) => Some(GreetingM { kind: k, code: c, text: t }),
                            None => None,
                        }
                    } else {
                        None
                    },
                    None => None,
                }
            },
            None => None,
        }
    } else {
        None
    }
}

pub fn x_greeting(f: &[u8]) -> (r: Option<Greeting>)
    ensures
        match (r, p_greeting(f@)) {
            (Some(g), Some(gm)) => greeting_m(g) == gm,
            (None, None) => true,
            _ => false,
        },
{
    let n = f.len();
    if !(n >= 2 && f[0] == 0x2a && sp_at_x(f, 1)) {
        return None;
    }
    match x_atom(f, 2) {
        Some((j, a)) => {
            proof {
                lemma_tok_bounds(f@, 2);
            }
            let kind = if kw::ke_ok(a.as_slice()) {
                Some(GreetingKind::Okay)
            } else if kw::ke_preauth(a.as_slice()) {
                Some(GreetingKind::PreAuth)
            } else if kw::ke_bye(a.as_slice()) {
                Some(GreetingKind::Bye)
            } else {
                None
            };
            match kind {
                Some(k) => {
                    if sp_at_x(f, j) {
                        match x_resp_text(f, j + 1) {
                            Some((e, c, t)) => Some(Greeting { kind: k, code: c, text: t }),
                            None => None,
                        }
                    } else {
                        None
                    }
                },
                None => None,
            }
        },
        None => None,
    }
}

} // verus!
