use vstd::prelude::*;
use vstd::utf8::encode_utf8;

use crate::catalog::{shelter_profile, shelter_row, SHELTER_COUNT};
use crate::dictionary::audit_prefix;
use crate::fragment::frag_materialize;
use crate::inventory::{reconcile_overflows, reconcile_spec};
use crate::manifest::primary_contact_spec;
use crate::manifest::anchor_score_spec;
use crate::model::{JournalSummary, ScriptResult, TelemetryPoint};
use crate::ops::{sat_i64, saturating_add_i64};
use crate::report::render_spec;
use crate::route::{audit_marks, cached_lane_score, lane_score_overflows};
use crate::error::{overflow_error, DecodeError, Result};
use crate::session::{SessionModel, SessionState};
use crate::text::{string_from_chars, strings_seq};
use crate::textops::{contains_chars, find_chars};

verus! {

/// The outcome of analysing a session: a risk score and notes.
#[derive(Clone, Debug, Default)]
pub struct RiskReport {
    pub score: i64,
    pub messages: Vec<String>,
}

/// What a risk report holds.
pub struct RiskModel {
    pub score: i64,
    pub messages: Seq<Seq<char>>,
}

impl View for RiskReport {
    type V = RiskModel;

    open spec fn view(&self) -> RiskModel {
        RiskModel { score: self.score, messages: strings_seq(self.messages@) }
    }
}

/// The word `ops`.
pub open spec fn word_ops() -> Seq<char> {
    seq!['o', 'p', 's']
}

/// The decimal digits of `n`.
pub open spec fn decimal(n: nat) -> Seq<char>
    decreases n,
{
    if n < 10 {
        seq![((n + 0x30) as u8) as char]
    } else {
        decimal(n / 10) + seq![((n % 10 + 0x30) as u8) as char]
    }
}

/// The note on a field contact.
pub open spec fn contact_note(contact: Seq<char>) -> Seq<char> {
    seq!['f', 'i', 'e', 'l', 'd', ' ', 'c', 'o', 'n', 't', 'a', 'c', 't', ' '] + contact
}

/// The note on rendered reports.
pub open spec fn rendered_note(n: nat) -> Seq<char> {
    seq!['r', 'e', 'n', 'd', 'e', 'r', 'e', 'd', ' '] + decimal(n) + seq![' ', 'r', 'e', 'p', 'o', 'r', 't', 's']
}

/// The score after the first `n` telemetry points: each point over the capacity of its
/// shelter's profile adds three per person over.
pub open spec fn overload(score: int, points: Seq<TelemetryPoint>, n: int) -> int
    decreases n,
{
    if n <= 0 {
        score
    } else {
        let pt = points[n - 1];
        let cap = shelter_row((pt.shelter_id as int) % (SHELTER_COUNT as int)).capacity;
        overload(score, points, n - 1) + if pt.occupancy > cap {
            (pt.occupancy - cap) * 3
        } else {
            0
        }
    }
}

/// Every running score over the first `n` points fits in an `i64`.
pub open spec fn overload_fits(score: int, points: Seq<TelemetryPoint>, n: int) -> bool
    decreases n,
{
    if n <= 0 {
        true
    } else {
        overload_fits(score, points, n - 1) && i64::MIN <= overload(score, points, n) <= i64::MAX
    }
}

/// The score with the first `n` journal summaries added, saturating: each its score, then
/// its event count.
pub open spec fn add_journals(score: i64, sums: Seq<JournalSummary>, n: int) -> i64
    decreases n,
{
    if n <= 0 {
        score
    } else {
        let s = add_journals(score, sums, n - 1);
        sat_i64(sat_i64(s as int, sums[n - 1].score as int) as int, (sums[n - 1].events as i64) as int)
    }
}

/// The score with the first `n` script results added, saturating: each its accumulator,
/// then eleven per alert.
pub open spec fn add_scripts(score: i64, results: Seq<ScriptResult>, n: int) -> i64
    decreases n,
{
    if n <= 0 {
        score
    } else {
        let s = add_scripts(score, results, n - 1);
        sat_i64(sat_i64(s as int, results[n - 1].accumulator as int) as int, results[n - 1].alerts * 11)
    }
}

/// The score before the telemetry is counted: the byte length of the primary contact, mixed
/// with the anchor score; then, saturating, the dictionary alias audit and the cached lane
/// score; mixed with the route label audit; then, saturating, the inventory reconciliation.
pub open spec fn base_score(s: SessionModel) -> i64 {
    let s0: i64 = match primary_contact_spec(s.manifest) {
        Some(c) => (encode_utf8(c).len() as usize) as i64,
        None => 0,
    };
    let s1 = s0 ^ (anchor_score_spec(s.manifest) as i64);
    let s2 = sat_i64(s1 as int, (audit_prefix(s.dictionary, s.dictionary.aliases.len() as int) as i64) as int);
    let s3 = sat_i64(s2 as int, cached_lane_score(s.routes) as int);
    let s4 = s3 ^ (audit_marks(s.routes, s.routes.label_marks.len() as int) as i64);
    sat_i64(s4 as int, reconcile_spec(s.inventory) as int)
}

/// The session after analysis: pending fragments materialized and templates rendered.
pub open spec fn analyzed_session(s: SessionModel) -> SessionModel {
    SessionModel { fragments: frag_materialize(s.fragments), reports: render_spec(s.reports), ..s }
}

/// The risk report of a session: the base score, the telemetry overload, then the journal
/// summaries and script results; with a note on a primary contact that mentions `ops` and a
/// note on the rendered reports when there are any.
pub open spec fn analyze_spec(s: SessionModel) -> RiskModel {
    let after = analyzed_session(s);
    let s5 = overload(base_score(s) as int, s.telemetry, s.telemetry.len() as int) as i64;
    let s6 = add_journals(s5, s.journal_summaries, s.journal_summaries.len() as int);
    let s7 = add_scripts(s6, s.script_results, s.script_results.len() as int);
    let m1: Seq<Seq<char>> = match primary_contact_spec(s.manifest) {
        Some(c) => if contains_chars(c, word_ops()) {
            seq![contact_note(c)]
        } else {
            Seq::empty()
        },
        None => Seq::empty(),
    };
    let n = after.reports.rendered.len();
    RiskModel {
        score: s7,
        messages: if n > 0 {
            m1.push(rendered_note(n))
        } else {
            m1
        },
    }
}

/// Analysis overflows: scoring the lanes, reconciling the inventory, or counting the
/// telemetry overload leaves its integer range.
pub open spec fn analyze_overflows(s: SessionModel) -> bool {
    lane_score_overflows(s.routes) || reconcile_overflows(s.inventory) || !overload_fits(
        base_score(s) as int,
        s.telemetry,
        s.telemetry.len() as int,
    )
}

fn push_decimal(out: &mut Vec<char>, n: usize)
    ensures
        final(out)@ == old(out)@ + decimal(n as nat),
    decreases n,
{
    if n >= 10 {
        push_decimal(out, n / 10);
    }
    let d = (n % 10) as u8;
    out.push((d + 0x30) as char);
    assert(final(out)@ =~= old(out)@ + decimal(n as nat));
}

proof fn lemma_overload_fits_prefix(score: int, points: Seq<TelemetryPoint>, n: int)
    requires
        overload_fits(score, points, n),
    ensures
        forall|k: int| 0 <= k <= n ==> #[trigger] overload_fits(score, points, k),
    decreases n,
{
    if n > 0 {
        lemma_overload_fits_prefix(score, points, n - 1);
    }
}

/// Analyses a session (see `analyze_spec` and `analyzed_session`).
pub fn analyze_session(state: &mut SessionState) -> (report: RiskReport)
    requires
        !analyze_overflows(old(state)@),
    ensures
        final(state)@ == analyzed_session(old(state)@),
        report@ == analyze_spec(old(state)@),
{
    let ghost s = state@;
    let mut score: i64 = 0;
    let mut messages: Vec<String> = Vec::new();
    let contact = state.manifest.primary_contact();
    match &contact {
        Some(c) => {
            score = c.as_str().len() as i64;
            let w_ops: [char; 3] = ['o', 'p', 's'];
            assert(w_ops@ == word_ops());
            let chars = crate::text::chars_of(c.as_str());
            if find_chars(chars.as_slice(), &w_ops) {
                let mut note: Vec<char> = Vec::new();
                note.push('f');
                note.push('i');
                note.push('e');
                note.push('l');
                note.push('d');
                note.push(' ');
                note.push('c');
                note.push('o');
                note.push('n');
                note.push('t');
                note.push('a');
                note.push('c');
                note.push('t');
                note.push(' ');
                let mut k: usize = 0;
                let ghost head = note@;
                while k < chars.len()
                    invariant
                        0 <= k <= chars@.len(),
                        note@ == head + chars@.take(k as int),
                    decreases chars@.len() - k,
                {
                    note.push(chars[k]);
                    k = k + 1;
                    assert(head + chars@.take(k as int) == (head + chars@.take((k - 1) as int)).push(chars@[k - 1]));
                }
                assert(chars@.take(chars@.len() as int) == chars@);
                assert(note@ == contact_note(c@));
                let text = string_from_chars(&note);
                messages.push(text);
            }
        },
        None => {},
    }
    let ghost m1 = strings_seq(messages@);
    assert(m1 == match primary_contact_spec(s.manifest) {
        Some(c) => if contains_chars(c, word_ops()) {
            seq![contact_note(c)]
        } else {
            Seq::<Seq<char>>::empty()
        },
        None => Seq::<Seq<char>>::empty(),
    });
    let ghost s0: i64 = match primary_contact_spec(s.manifest) {
        Some(c) => (encode_utf8(c).len() as usize) as i64,
        None => 0,
    };
    assert(score == s0);
    score = score ^ (state.manifest.anchor_score() as i64);
    let ghost s1 = s0 ^ (anchor_score_spec(s.manifest) as i64);
    assert(score == s1);
    score = saturating_add_i64(score, state.dictionary.audit_aliases() as i64);
    let ghost s2 = sat_i64(s1 as int, (audit_prefix(s.dictionary, s.dictionary.aliases.len() as int) as i64) as int);
    assert(score == s2);
    score = saturating_add_i64(score, state.routes.score_cached_lane() as i64);
    let ghost s3 = sat_i64(s2 as int, cached_lane_score(s.routes) as int);
    assert(score == s3);
    score = score ^ (state.routes.audit_labels() as i64);
    let ghost s4 = s3 ^ (audit_marks(s.routes, s.routes.label_marks.len() as int) as i64);
    assert(score == s4);
    score = saturating_add_i64(score, state.inventory.reconcile() as i64);
    assert(score == sat_i64(s4 as int, reconcile_spec(s.inventory) as int));
    assert(score == base_score(s));
    state.fragments.materialize_pending();
    state.reports.render();
    proof {
        lemma_overload_fits_prefix(base_score(s) as int, s.telemetry, s.telemetry.len() as int);
    }
    let mut i: usize = 0;
    while i < state.telemetry.len()
        invariant
            0 <= i <= state.telemetry@.len(),
            state.telemetry@ == s.telemetry,
            score == overload(base_score(s) as int, s.telemetry, i as int),
            forall|k: int|
                0 <= k <= s.telemetry.len() ==> #[trigger] overload_fits(
                    base_score(s) as int,
                    s.telemetry,
                    k,
                ),
        decreases state.telemetry@.len() - i,
    {
        let point = state.telemetry[i];
        let profile = shelter_profile(point.shelter_id as usize);
        assert(overload_fits(base_score(s) as int, s.telemetry, i + 1));
        if point.occupancy > profile.capacity {
            score = score + (point.occupancy - profile.capacity) as i64 * 3;
        }
        i = i + 1;
    }
    let ghost s5 = score;
    let mut j: usize = 0;
    while j < state.journal_summaries.len()
        invariant
            0 <= j <= state.journal_summaries@.len(),
            state.journal_summaries@ == s.journal_summaries,
            score == add_journals(s5, s.journal_summaries, j as int),
        decreases state.journal_summaries@.len() - j,
    {
        let summary = state.journal_summaries[j];
        score = saturating_add_i64(score, summary.score);
        score = saturating_add_i64(score, summary.events as i64);
        j = j + 1;
    }
    let ghost s6 = score;
    let mut k: usize = 0;
    while k < state.script_results.len()
        invariant
            0 <= k <= state.script_results@.len(),
            state.script_results@ == s.script_results,
            score == add_scripts(s6, s.script_results, k as int),
        decreases state.script_results@.len() - k,
    {
        let result = state.script_results[k];
        score = saturating_add_i64(score, result.accumulator);
        score = saturating_add_i64(score, result.alerts as i64 * 11);
        k = k + 1;
    }
    let n = state.reports.rendered_count();
    if n > 0 {
        let mut note: Vec<char> = Vec::new();
        note.push('r');
        note.push('e');
        note.push('n');
        note.push('d');
        note.push('e');
        note.push('r');
        note.push('e');
        note.push('d');
        note.push(' ');
        push_decimal(&mut note, n);
        note.push(' ');
        note.push('r');
        note.push('e');
        note.push('p');
        note.push('o');
        note.push('r');
        note.push('t');
        note.push('s');
        assert(note@ == rendered_note(n as nat));
        let text = string_from_chars(&note);
        let ghost before = messages@;
        messages.push(text);
        assert(strings_seq(messages@) == strings_seq(before).push(text@));
    }
    RiskReport { score, messages }
}

/// The base score of a session (see `base_score`).
fn base_score_of(state: &SessionState) -> (score: i64)
    requires
        !lane_score_overflows(state@.routes),
        !reconcile_overflows(state@.inventory),
    ensures
        score == base_score(state@),
{
    let ghost s = state@;
    let mut score: i64 = 0;
    let contact = state.manifest.primary_contact();
    match &contact {
        Some(c) => {
            score = c.as_str().len() as i64;
        },
        None => {},
    }
    score = score ^ (state.manifest.anchor_score() as i64);
    score = saturating_add_i64(score, state.dictionary.audit_score() as i64);
    score = saturating_add_i64(score, state.routes.score_cached_lane() as i64);
    score = score ^ (state.routes.audit_labels() as i64);
    score = saturating_add_i64(score, state.inventory.reconcile() as i64);
    score
}

proof fn lemma_overload_unfit_stays(score: int, points: Seq<TelemetryPoint>, k: int, n: int)
    requires
        0 <= k <= n,
        !overload_fits(score, points, k),
    ensures
        !overload_fits(score, points, n),
    decreases n - k,
{
    if k < n {
        lemma_overload_unfit_stays(score, points, k, n - 1);
    }
}

/// Whether analysing the session would overflow (see `analyze_overflows`).
pub fn analysis_would_overflow(state: &SessionState) -> (b: bool)
    ensures
        b == analyze_overflows(state@),
{
    if state.routes.score_would_overflow() {
        return true;
    }
    if state.inventory.reconcile_would_overflow() {
        return true;
    }
    let base = base_score_of(state);
    let ghost s = state@;
    let mut acc: i128 = base as i128;
    let mut i: usize = 0;
    while i < state.telemetry.len()
        invariant
            0 <= i <= state.telemetry@.len(),
            state.telemetry@ == s.telemetry,
            s == state@,
            base == base_score(s),
            acc == overload(base as int, s.telemetry, i as int),
            overload_fits(base as int, s.telemetry, i as int),
            i64::MIN <= acc <= i64::MAX,
        decreases state.telemetry@.len() - i,
    {
        let point = state.telemetry[i];
        let profile = shelter_profile(point.shelter_id as usize);
        if point.occupancy > profile.capacity {
            acc = acc + (point.occupancy - profile.capacity) as i128 * 3;
        }
        i = i + 1;
        assert(acc == overload(base as int, s.telemetry, i as int));
        if acc < i64::MIN as i128 || acc > i64::MAX as i128 {
            assert(!overload_fits(base as int, s.telemetry, i as int));
            proof {
                lemma_overload_unfit_stays(base as int, s.telemetry, i as int, s.telemetry.len() as int);
            }
            return true;
        }
    }
    false
}

/// Analyses a session as `analyze_session` does, or returns `overflow_error()` (leaving the
/// session as it is) where the analysis would overflow.
pub fn analyze_session_checked(state: &mut SessionState) -> (r: Result<RiskReport>)
    ensures
        analyze_overflows(old(state)@) ==> r == Err::<RiskReport, DecodeError>(overflow_error())
            && final(state)@ == old(state)@,
        !analyze_overflows(old(state)@) ==> final(state)@ == analyzed_session(old(state)@) && r
            is Ok && r->Ok_0@ == analyze_spec(old(state)@),
{
    if analysis_would_overflow(state) {
        return Err(DecodeError::overflow());
    }
    Ok(analyze_session(state))
}

} // verus!