//! Readiness evidence for Linux IMA appraisal, read from the kernel command line and the
//! loaded IMA policy text, without allocation.
//!
//! Both texts are read as their UTF-8 bytes. ASCII whitespace never occurs inside a
//! multi-byte UTF-8 sequence, so splitting the bytes at ASCII whitespace gives exactly the
//! tokens of the text.
use vstd::prelude::*;
use vstd::string::StringSliceAdditionalSpecFns;
use crate::codec::bytes_eq_at;

verus! {

/// `ima_appraise=enforce`
pub const ENFORCE_TOKEN: [u8; 20] = [
    0x69, 0x6d, 0x61, 0x5f, 0x61, 0x70, 0x70, 0x72, 0x61, 0x69, 0x73, 0x65, 0x3d, 0x65, 0x6e, 0x66,
    0x6f, 0x72, 0x63, 0x65,
];

/// `appraise`
pub const APPRAISE_TOKEN: [u8; 8] = [0x61, 0x70, 0x70, 0x72, 0x61, 0x69, 0x73, 0x65];

/// `appraise_type=imasig`
pub const SIGNATURE_TYPE_TOKEN: [u8; 20] = [
    0x61, 0x70, 0x70, 0x72, 0x61, 0x69, 0x73, 0x65, 0x5f, 0x74, 0x79, 0x70, 0x65, 0x3d, 0x69, 0x6d,
    0x61, 0x73, 0x69, 0x67,
];

/// `func=BPRM_CHECK`
pub const EXEC_FUNC_TOKEN: [u8; 15] = [
    0x66, 0x75, 0x6e, 0x63, 0x3d, 0x42, 0x50, 0x52, 0x4d, 0x5f, 0x43, 0x48, 0x45, 0x43, 0x4b,
];

/// `func=MODULE_CHECK`
pub const MODULE_FUNC_TOKEN: [u8; 17] = [
    0x66, 0x75, 0x6e, 0x63, 0x3d, 0x4d, 0x4f, 0x44, 0x55, 0x4c, 0x45, 0x5f, 0x43, 0x48, 0x45, 0x43,
    0x4b,
];

/// Line feed.
pub const NEWLINE: u8 = 0x0a;

/// `#`, which starts a comment token.
pub const COMMENT: u8 = 0x23;

/// Evidence required before production protected-scope enforcement may attach.
#[derive(Clone, Copy, Debug, PartialEq, Eq, Structural)]
pub struct ImaPolicyEvidence {
    pub enforce_mode: bool,
    pub signed_exec_appraisal: bool,
    pub signed_module_appraisal: bool,
}

impl ImaPolicyEvidence {
    /// Signed appraisal is required for both executable and kernel-module loads.
    pub fn is_production_ready(&self) -> (r: bool)
        ensures
            r == (self.enforce_mode && self.signed_exec_appraisal && self.signed_module_appraisal),
    {
        self.enforce_mode && self.signed_exec_appraisal && self.signed_module_appraisal
    }
}

/// ASCII whitespace: space, tab, line feed, form feed, carriage return.
pub open spec fn is_ws(b: u8) -> bool {
    b == 0x20 || b == 0x09 || b == 0x0a || b == 0x0c || b == 0x0d
}

/// `t` occurs in `s` at `i` as a whole whitespace-delimited token.
pub open spec fn token_at(s: Seq<u8>, t: Seq<u8>, i: int) -> bool {
    &&& 0 <= i
    &&& i + t.len() <= s.len()
    &&& s.subrange(i, i + t.len()) == t
    &&& (i == 0 || is_ws(s[i - 1]))
    &&& (i + t.len() == s.len() || is_ws(s[i + t.len()]))
}

/// `t` is one of the whitespace-delimited tokens of `s`.
pub open spec fn has_token(s: Seq<u8>, t: Seq<u8>) -> bool {
    exists|i: int| token_at(s, t, i)
}

/// A token starting with `#` begins at `p`.
pub open spec fn comment_starts_at(s: Seq<u8>, p: int) -> bool {
    0 <= p < s.len() && s[p] == COMMENT && (p == 0 || is_ws(s[p - 1]))
}

/// Position of the first comment token of `line` at or after `p`, or the line's length.
pub open spec fn first_comment_from(line: Seq<u8>, p: int) -> int
    decreases line.len() - p,
{
    if p < 0 || p >= line.len() {
        line.len() as int
    } else if comment_starts_at(line, p) {
        p
    } else {
        first_comment_from(line, p + 1)
    }
}

/// Length of the part of a rule line before its first comment token.
pub open spec fn active_len(line: Seq<u8>) -> int {
    first_comment_from(line, 0)
}

/// A policy line appraises `func_token` loads with a required IMA signature; tokens after
/// a comment token do not count.
pub open spec fn is_signed_appraisal_rule(line: Seq<u8>, func_token: Seq<u8>) -> bool {
    let active = line.subrange(0, active_len(line));
    &&& has_token(active, APPRAISE_TOKEN@)
    &&& has_token(active, func_token)
    &&& has_token(active, SIGNATURE_TYPE_TOKEN@)
}

/// `s[a..b]` is one line of `s`: delimited by line feeds or the ends of the text.
pub open spec fn is_line(s: Seq<u8>, a: int, b: int) -> bool {
    &&& 0 <= a <= b <= s.len()
    &&& (a == 0 || s[a - 1] == NEWLINE)
    &&& (b == s.len() || s[b] == NEWLINE)
    &&& forall|k: int| a <= k < b ==> s[k] != NEWLINE
}

/// Some line of the policy text is a signed appraisal rule for `func_token`.
pub open spec fn policy_has_signed_rule(policy: Seq<u8>, func_token: Seq<u8>) -> bool {
    exists|a: int, b: int|
        is_line(policy, a, b) && #[trigger] is_signed_appraisal_rule(policy.subrange(a, b), func_token)
}

/// The evidence that the command line and policy text carry.
pub open spec fn evidence_of(cmdline: Seq<u8>, policy: Seq<u8>) -> ImaPolicyEvidence {
    ImaPolicyEvidence {
        enforce_mode: has_token(cmdline, ENFORCE_TOKEN@),
        signed_exec_appraisal: policy_has_signed_rule(policy, EXEC_FUNC_TOKEN@),
        signed_module_appraisal: policy_has_signed_rule(policy, MODULE_FUNC_TOKEN@),
    }
}

fn is_ascii_ws(b: u8) -> (r: bool)
    ensures
        r == is_ws(b),
{
    b == 0x20 || b == 0x09 || b == 0x0a || b == 0x0c || b == 0x0d
}

/// Whether `t` is a whole token of `s[a..c]`.
fn has_token_in(s: &[u8], a: usize, c: usize, t: &[u8]) -> (r: bool)
    requires
        a <= c <= s@.len(),
        t@.len() > 0,
    ensures
        r == has_token(s@.subrange(a as int, c as int), t@),
{
    let ghost w = s@.subrange(a as int, c as int);
    if c - a < t.len() {
        assert forall|i: int| !token_at(w, t@, i) by {}
        return false;
    }
    let last = c - t.len();
    let mut i: usize = a;
    while i <= last
        invariant
            a <= i,
            a <= c <= s@.len(),
            last + t@.len() == c,
            t@.len() > 0,
            w == s@.subrange(a as int, c as int),
            forall|q: int| 0 <= q < i - a ==> !token_at(w, t@, q),
        decreases last + 1 - i,
    {
        let left_ok = i == a || is_ascii_ws(s[i - 1]);
        let right_ok = i + t.len() == c || is_ascii_ws(s[i + t.len()]);
        if left_ok && right_ok && bytes_eq_at(s, i, t) {
            let ghost q = i - a;
            assert(w.subrange(q, q + t@.len()) =~= s@.subrange(i as int, i + t@.len()));
            assert(token_at(w, t@, q));
            return true;
        }
        proof {
            let q = i - a;
            if token_at(w, t@, q) {
                assert(w.subrange(q, q + t@.len()) =~= s@.subrange(i as int, i + t@.len()));
            }
        }
        i = i + 1;
    }
    assert forall|q: int| !token_at(w, t@, q) by {}
    false
}

/// Position of the first comment token in `s[a..b]`, or `b`.
fn comment_cut(s: &[u8], a: usize, b: usize) -> (c: usize)
    requires
        a <= b <= s@.len(),
    ensures
        a <= c <= b,
        c - a == active_len(s@.subrange(a as int, b as int)),
{
    let ghost line = s@.subrange(a as int, b as int);
    let mut p: usize = a;
    while p < b
        invariant
            a <= p <= b <= s@.len(),
            line == s@.subrange(a as int, b as int),
            first_comment_from(line, 0) == first_comment_from(line, p - a),
        decreases b - p,
    {
        if s[p] == COMMENT && (p == a || is_ascii_ws(s[p - 1])) {
            assert(comment_starts_at(line, p - a));
            return p;
        }
        assert(!comment_starts_at(line, p - a));
        p = p + 1;
    }
    p
}

fn signed_rule_in(s: &[u8], a: usize, b: usize, func_token: &[u8]) -> (r: bool)
    requires
        a <= b <= s@.len(),
        func_token@.len() > 0,
    ensures
        r == is_signed_appraisal_rule(s@.subrange(a as int, b as int), func_token@),
{
    let c = comment_cut(s, a, b);
    let ghost line = s@.subrange(a as int, b as int);
    assert(line.subrange(0, active_len(line)) =~= s@.subrange(a as int, c as int));
    has_token_in(s, a, c, &APPRAISE_TOKEN) && has_token_in(s, a, c, func_token)
        && has_token_in(s, a, c, &SIGNATURE_TYPE_TOKEN)
}

/// Whether some line of `s` is a signed appraisal rule for `func_token`.
fn any_signed_rule(s: &[u8], func_token: &[u8]) -> (r: bool)
    requires
        func_token@.len() > 0,
    ensures
        r == policy_has_signed_rule(s@, func_token@),
{
    let n = s.len();
    let mut a: usize = 0;
    loop
        invariant
            n == s@.len(),
            a <= n,
            func_token@.len() > 0,
            a == 0 || s@[a - 1] == NEWLINE,
            forall|x: int, y: int|
                0 <= x < a && is_line(s@, x, y) ==> !#[trigger] is_signed_appraisal_rule(
                    s@.subrange(x, y),
                    func_token@,
                ),
        decreases n - a,
    {
        let mut b: usize = a;
        while b < n && s[b] != NEWLINE
            invariant
                a <= b <= n,
                n == s@.len(),
                forall|k: int| a <= k < b ==> s@[k] != NEWLINE,
            decreases n - b,
        {
            b = b + 1;
        }
        assert(is_line(s@, a as int, b as int));
        if signed_rule_in(s, a, b, func_token) {
            return true;
        }
        proof {
            assert forall|x: int, y: int|
                0 <= x <= b && is_line(s@, x, y) implies !#[trigger] is_signed_appraisal_rule(
                s@.subrange(x, y),
                func_token@,
            ) by {
                if x >= a {
                    if x > a {
                        assert(s@[x - 1] != NEWLINE);
                    }
                    if y > b {
                        assert(s@[b as int] != NEWLINE);
                    }
                    if y < b {
                        assert(s@[y] != NEWLINE);
                    }
                }
            }
        }
        if b == n {
            return false;
        }
        a = b + 1;
    }
}

/// Reads the kernel command line and the loaded IMA policy text.
pub fn inspect_ima_policy(cmdline: &str, policy: &str) -> (ev: ImaPolicyEvidence)
    ensures
        ev == evidence_of(cmdline.spec_bytes(), policy.spec_bytes()),
{
    let cmd = cmdline.as_bytes();
    let pol = policy.as_bytes();
    let enforce_mode = has_token_in(cmd, 0, cmd.len(), &ENFORCE_TOKEN);
    assert(cmd@.subrange(0, cmd@.len() as int) =~= cmd@);
    let signed_exec_appraisal = any_signed_rule(pol, &EXEC_FUNC_TOKEN);
    let signed_module_appraisal = any_signed_rule(pol, &MODULE_FUNC_TOKEN);
    ImaPolicyEvidence { enforce_mode, signed_exec_appraisal, signed_module_appraisal }
}

} // verus!
