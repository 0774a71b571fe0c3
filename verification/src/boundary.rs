//! Cross-mode KV reuse: open the previous turn's canonical boundary, and leave
//! this turn's behind.
//!
//! A boundary is a saved context that holds exactly the cue-free prompt of a
//! conversation prefix. On entry the deepest usable boundary is opened (the
//! exact prompt first, then progressively shorter message prefixes); it is
//! used only when its tokens are a true prefix of this turn's canonical
//! prompt, never on length alone. On exit the prompt boundary and, when the
//! turn produced visible text, the prompt-plus-answer boundary are saved.

use vstd::prelude::*;

use crate::text::occurs_in;

verus! {

/// How far back to look for a usable boundary when the exact one is absent.
pub const LADDER_DEPTH: usize = 4;

/// Conversation identity plus caching policy, carried on every generative
/// request.
///
/// `Default` is written out so that it agrees with what a decoder produces
/// for an empty object: reuse stays enabled when `enabled` is omitted.
#[derive(Debug, Clone)]
pub struct BoundaryDirective {
    /// Opaque conversation id. An empty key is the no-reuse signal.
    pub key: String,
    /// Bumped by the client to deliberately orphan prior KV.
    pub compat: String,
    pub turn: u32,
    /// `false` disables reuse for this turn without changing the wire shape.
    pub enabled: bool,
}

/// The value an omitted `enabled` field takes.
pub fn yes() -> (r: bool)
    ensures
        r,
{
    true
}

impl Default for BoundaryDirective {
    fn default() -> (d: Self)
        ensures
            d.key@ == Seq::<char>::empty(),
            d.compat@ == Seq::<char>::empty(),
            d.turn == 0,
            d.enabled,
    {
        BoundaryDirective { key: String::new(), compat: String::new(), turn: 0, enabled: yes() }
    }
}

/// Reuse is attempted only when it is enabled and the directive names a
/// conversation.
pub open spec fn reuse_on(d: BoundaryDirective) -> bool {
    d.enabled && d.key@.len() > 0
}

impl BoundaryDirective {
    /// Whether this directive asks for boundary reuse at all.
    pub fn reuse_enabled(&self) -> (r: bool)
        ensures
            r == reuse_on(*self),
            r == (self.enabled && self.key@.len() > 0),
    {
        self.enabled && !self.key.as_str().is_empty()
    }
}

/// What actually happened when the canonical context was opened.
///
/// `found` alone is not a hit signal: an evicted boundary still opens by name
/// and replays its whole prefix. `resident_pages` and `replayed_pages` are the
/// engine's own account and are `None` on a cold start, so "no data" stays
/// distinguishable from "reported zero".
#[derive(Debug, Clone, Copy, Default, PartialEq, Eq)]
pub struct OpenOutcome {
    pub found: bool,
    /// Tokens the opened boundary covered.
    pub reused_tokens: usize,
    /// Tokens appended on top of it.
    pub appended_tokens: usize,
    /// True when the exact boundary was used rather than a ladder rung.
    pub exact: bool,
    /// Committed pages the engine reported as already resident.
    pub resident_pages: Option<u32>,
    /// Committed pages the engine had to regenerate by replay.
    pub replayed_pages: Option<u32>,
    /// Recurrent state was replayed (tracked apart from KV pages).
    pub rs_replayed: bool,
}

/// The outcome of a start with nothing reused.
pub open spec fn cold_outcome(total: usize) -> OpenOutcome {
    OpenOutcome {
        found: false,
        reused_tokens: 0,
        appended_tokens: total,
        exact: false,
        resident_pages: None,
        replayed_pages: None,
        rs_replayed: false,
    }
}

/// A boundary counts as a hit only when it was found and the engine confirmed
/// that no page and no recurrent state had to be replayed.
pub open spec fn resident_hit(o: OpenOutcome) -> bool {
    o.found && o.replayed_pages == Some(0u32) && !o.rs_replayed
}

impl OpenOutcome {
    /// A cold start: everything appended, nothing found or reported.
    pub fn cold(total: usize) -> (o: Self)
        ensures
            o == cold_outcome(total),
            !o.found,
            o.reused_tokens == 0,
            o.appended_tokens == total,
            !o.exact,
            o.resident_pages is None,
            o.replayed_pages is None,
            !o.rs_replayed,
    {
        OpenOutcome {
            found: false,
            reused_tokens: 0,
            appended_tokens: total,
            exact: false,
            resident_pages: None,
            replayed_pages: None,
            rs_replayed: false,
        }
    }

    /// True only when the engine confirmed the reused prefix was resident.
    pub fn is_resident_hit(&self) -> (r: bool)
        ensures
            r == resident_hit(*self),
            r == (self.found && self.replayed_pages == Some(0u32) && !self.rs_replayed),
    {
        self.found && match self.replayed_pages {
            Some(p) => p == 0,
            None => false,
        } && !self.rs_replayed
    }
}

/// Which of the two boundaries actually landed.
#[derive(Debug, Clone, Copy, PartialEq, Eq, Default)]
pub struct SaveOutcome {
    /// The prompt-only boundary (client-sent history, no cue, no reasoning).
    pub prompt_saved: bool,
    /// The generated boundary: history plus the visible answer.
    pub full_saved: bool,
}

impl SaveOutcome {
    /// Nothing was attempted: reuse is off, or the directive carries no key.
    pub fn disabled() -> (o: Self)
        ensures
            !o.prompt_saved,
            !o.full_saved,
    {
        SaveOutcome { prompt_saved: false, full_saved: false }
    }
}


/// The KV diagnostics that every result carries to the client: the wire
/// projection of an [`OpenOutcome`].
#[derive(Debug, Clone, Copy, Default, PartialEq, Eq)]
pub struct KvDiagnostics {
    pub boundary_found: bool,
    pub reused_tokens: u32,
    pub resident_pages: Option<u32>,
    pub replayed_pages: Option<u32>,
    pub rs_replayed: bool,
}

/// The wire projection: `appended_tokens` and `exact` stay host-side, and the
/// token count is narrowed to 32 bits the way `as u32` narrows it.
pub open spec fn kv_of(o: OpenOutcome) -> KvDiagnostics {
    KvDiagnostics {
        boundary_found: o.found,
        reused_tokens: o.reused_tokens as u32,
        resident_pages: o.resident_pages,
        replayed_pages: o.replayed_pages,
        rs_replayed: o.rs_replayed,
    }
}

impl OpenOutcome {
    /// Project onto the wire type every result carries.
    pub fn kv(&self) -> (k: KvDiagnostics)
        ensures
            k == kv_of(*self),
            k.boundary_found == self.found,
            k.reused_tokens == self.reused_tokens as u32,
            k.resident_pages == self.resident_pages,
            k.replayed_pages == self.replayed_pages,
            k.rs_replayed == self.rs_replayed,
    {
        KvDiagnostics {
            boundary_found: self.found,
            reused_tokens: self.reused_tokens as u32,
            resident_pages: self.resident_pages,
            replayed_pages: self.replayed_pages,
            rs_replayed: self.rs_replayed,
        }
    }
}

/// The engine's own account of opening a saved boundary: how many committed
/// pages were resident, how many were regenerated by replay, and whether the
/// recurrent state was replayed.
#[derive(Debug, Clone, Copy, PartialEq, Eq)]
pub struct OpenReport {
    pub resident_prefix_pages: u32,
    pub replayed_pages: u32,
    pub rs_replayed: bool,
}

/// `prefix` is a prefix of `full`: same tokens, not merely the same length.
pub open spec fn is_prefix(prefix: Seq<u32>, full: Seq<u32>) -> bool {
    prefix.len() <= full.len() && full.subrange(0, prefix.len() as int) == prefix
}

/// The outcome of reusing a boundary of `prefix_len` tokens for a canonical
/// prompt of `canonical_len` tokens, with the engine's report.
pub open spec fn hit_outcome(prefix_len: nat, canonical_len: nat, report: OpenReport) -> OpenOutcome {
    OpenOutcome {
        found: true,
        reused_tokens: prefix_len as usize,
        appended_tokens: (canonical_len - prefix_len) as usize,
        exact: prefix_len == canonical_len,
        resident_pages: Some(report.resident_prefix_pages),
        replayed_pages: Some(report.replayed_pages),
        rs_replayed: report.rs_replayed,
    }
}

/// Whether `full` starts with `prefix` (`<[u32]>::starts_with`).
pub fn starts_with(full: &[u32], prefix: &[u32]) -> (r: bool)
    ensures
        r == is_prefix(prefix@, full@),
{
    if prefix.len() > full.len() {
        return false;
    }
    let mut i: usize = 0;
    while i < prefix.len()
        invariant
            prefix@.len() <= full@.len(),
            0 <= i <= prefix@.len(),
            forall|j: int| 0 <= j < i ==> full@[j] == prefix@[j],
        decreases prefix.len() - i,
    {
        if full[i] != prefix[i] {
            assert(full@.subrange(0, prefix@.len() as int)[i as int] != prefix@[i as int]);
            return false;
        }
        i = i + 1;
    }
    assert(full@.subrange(0, prefix@.len() as int) =~= prefix@);
    true
}

/// The tokens of `full` from position `from` on.
fn tail_from(full: &[u32], from: usize) -> (r: Vec<u32>)
    requires
        from <= full@.len(),
    ensures
        r@ == full@.subrange(from as int, full@.len() as int),
{
    let mut out: Vec<u32> = Vec::new();
    let mut i: usize = from;
    while i < full.len()
        invariant
            from <= i <= full@.len(),
            out@ == full@.subrange(from as int, i as int),
        decreases full.len() - i,
    {
        out.push(full[i]);
        i = i + 1;
        assert(out@ =~= full@.subrange(from as int, i as int));
    }
    out
}

/// How an opened boundary is taken into use: the tokens still to append on
/// top of it, and the outcome to report.
#[derive(Debug, Clone)]
pub struct Reuse {
    pub suffix: Vec<u32>,
    pub outcome: OpenOutcome,
}

/// Decide about a boundary that opened: it is used only when its tokens are
/// a true prefix of the canonical prompt, so a same-length prefix of another
/// conversation is never served as ours. When used, the canonical prompt is
/// exactly the boundary followed by the returned suffix.
pub fn accept_rung(canonical: &Vec<u32>, prefix: &Vec<u32>, report: OpenReport) -> (r: Option<Reuse>)
    ensures
        r is Some <==> is_prefix(prefix@, canonical@),
        r matches Some(u) ==> {
            &&& prefix@ + u.suffix@ == canonical@
            &&& u.outcome == hit_outcome(prefix@.len(), canonical@.len(), report)
            &&& u.outcome.found
            &&& u.outcome.reused_tokens == prefix@.len()
            &&& u.outcome.appended_tokens == u.suffix@.len()
            &&& u.outcome.reused_tokens + u.outcome.appended_tokens == canonical@.len()
            &&& u.outcome.exact == (prefix@.len() == canonical@.len())
            &&& u.outcome.resident_pages == Some(report.resident_prefix_pages)
            &&& u.outcome.replayed_pages == Some(report.replayed_pages)
            &&& u.outcome.rs_replayed == report.rs_replayed
        },
{
    if !starts_with(canonical.as_slice(), prefix.as_slice()) {
        return None;
    }
    let suffix = tail_from(canonical.as_slice(), prefix.len());
    assert(prefix@ + suffix@ =~= canonical@);
    let outcome = OpenOutcome {
        found: true,
        reused_tokens: prefix.len(),
        appended_tokens: suffix.len(),
        exact: prefix.len() == canonical.len(),
        resident_pages: Some(report.resident_prefix_pages),
        replayed_pages: Some(report.replayed_pages),
        rs_replayed: report.rs_replayed,
    };
    Some(Reuse { suffix, outcome })
}

/// The shallowest message cut the ladder descends to.
pub open spec fn shallowest_cut(message_count: nat) -> nat {
    if message_count >= LADDER_DEPTH {
        (message_count - LADDER_DEPTH) as nat
    } else {
        0
    }
}

/// The message cuts to try, longest first: the whole history, then
/// progressively shorter message prefixes, at most `LADDER_DEPTH` back.
pub fn ladder_cuts(message_count: usize) -> (cuts: Vec<usize>)
    ensures
        cuts@.len() == message_count - shallowest_cut(message_count as nat) + 1,
        message_count >= LADDER_DEPTH ==> cuts@.len() == LADDER_DEPTH + 1,
        message_count < LADDER_DEPTH ==> cuts@.len() == message_count + 1,
        forall|i: int| 0 <= i < cuts@.len() ==> #[trigger] cuts@[i] == message_count - i,
{
    let shallowest: usize = message_count.saturating_sub(LADDER_DEPTH);
    let mut cuts: Vec<usize> = Vec::new();
    let mut cut: usize = message_count;
    loop
        invariant_except_break
            cuts@.len() == message_count - cut,
        invariant
            shallowest == shallowest_cut(message_count as nat),
            shallowest <= cut <= message_count,
            forall|i: int| 0 <= i < cuts@.len() ==> #[trigger] cuts@[i] == message_count - i,
        ensures
            cuts@.len() == message_count - shallowest + 1,
            forall|i: int| 0 <= i < cuts@.len() ==> #[trigger] cuts@[i] == message_count - i,
        decreases cut - shallowest,
    {
        cuts.push(cut);
        if cut == shallowest {
            break;
        }
        cut = cut - 1;
    }
    cuts
}

/// A built rung is usable when its prompt could be built and is non-empty.
pub open spec fn usable_rung(built: Option<Seq<u32>>) -> bool {
    built matches Some(t) && t.len() > 0
}

/// The usable rungs among `built`, in order.
pub open spec fn rungs_of(built: Seq<Option<Seq<u32>>>) -> Seq<Seq<u32>>
    decreases built.len(),
{
    if built.len() == 0 {
        Seq::empty()
    } else {
        let rest = rungs_of(built.drop_last());
        if usable_rung(built.last()) {
            rest.push(built.last()->0)
        } else {
            rest
        }
    }
}

/// The token view of a built rung.
pub open spec fn built_view(b: Option<Vec<u32>>) -> Option<Seq<u32>> {
    match b {
        Some(t) => Some(t@),
        None => None,
    }
}

/// Keep the rungs whose prompt was built and is non-empty, in ladder order.
/// `built[i]` is the prompt of the `i`-th cut, `None` where it failed to build.
pub fn ladder_rungs(built: Vec<Option<Vec<u32>>>) -> (rungs: Vec<Vec<u32>>)
    ensures
        rungs@.map_values(|t: Vec<u32>| t@) == rungs_of(built@.map_values(|b| built_view(b))),
        rungs@.len() <= built@.len(),
        forall|i: int| 0 <= i < rungs@.len() ==> (#[trigger] rungs@[i])@.len() > 0,
{
    let ghost views = built@.map_values(|b| built_view(b));
    let mut rungs: Vec<Vec<u32>> = Vec::new();
    assert(views.take(views.len() as int) =~= views);
    for b in it: built
        invariant
            it.seq().map_values(|b| built_view(b)) == views,
            rungs@.map_values(|t: Vec<u32>| t@) == rungs_of(views.take(it.index())),
    {
        let ghost before = views.take(it.index());
        assert(views[it.index()] == built_view(b));
        match b {
            Some(t) => {
                if t.len() > 0 {
                    rungs.push(t);
                }
            },
            None => {},
        }
        assert(views.take(it.index() + 1).drop_last() =~= before);
        assert(rungs@.map_values(|t: Vec<u32>| t@) =~= rungs_of(views.take(it.index() + 1)));
    }
    proof {
        lemma_rungs_are_usable(views);
        assert forall|i: int| 0 <= i < rungs@.len() implies (#[trigger] rungs@[i])@.len() > 0 by {
            assert(rungs@.map_values(|t: Vec<u32>| t@)[i] == rungs@[i]@);
        }
    }
    rungs
}

/// Whether the exact prompt boundary should be saved: only with reuse on and
/// a non-empty prompt.
pub fn checkpoint_wanted(directive: &BoundaryDirective, tokens: &[u32]) -> (r: bool)
    ensures
        r == (reuse_on(*directive) && tokens@.len() > 0),
        r == (directive.enabled && directive.key@.len() > 0 && tokens@.len() > 0),
{
    directive.reuse_enabled() && tokens.len() > 0
}

/// Whether a save left the name present. Content-addressed names make
/// "already exists" a success: the same name can only come from the same
/// tokens.
pub fn save_landed(result: &Result<(), String>) -> (r: bool)
    ensures
        r == match result {
            Ok(_) => true,
            Err(msg) => occurs_in(msg@, "already exists"@),
        },
{
    match result {
        Ok(_) => true,
        Err(msg) => crate::text::contains_text(msg.as_str(), "already exists"),
    }
}


/// What the exit half has to do.
#[derive(Debug, Clone, Copy, PartialEq, Eq)]
pub enum SavePlan {
    /// Reuse is off or there is no key: nothing is attempted.
    Disabled,
    /// No visible answer: only the prompt boundary is valid.
    PromptOnly,
    /// Save the prompt boundary and the prompt-plus-answer boundary.
    WithAnswer,
}

/// The turn produced visible assistant text.
pub open spec fn visible_answer(answer: Option<&str>) -> bool {
    answer matches Some(a) && a@.len() > 0
}

/// The plan for the exit half: nothing without reuse, the prompt boundary
/// alone without a visible answer, both boundaries otherwise.
pub open spec fn save_plan(d: BoundaryDirective, answer: Option<&str>) -> SavePlan {
    if !reuse_on(d) {
        SavePlan::Disabled
    } else if !visible_answer(answer) {
        SavePlan::PromptOnly
    } else {
        SavePlan::WithAnswer
    }
}

/// The plan for the exit half, from the directive and the visible answer.
pub fn plan_save(directive: &BoundaryDirective, answer: Option<&str>) -> (p: SavePlan)
    ensures
        p == save_plan(*directive, answer),
        !(directive.enabled && directive.key@.len() > 0) ==> p == SavePlan::Disabled,
        (directive.enabled && directive.key@.len() > 0) ==> match answer {
            Some(a) => p == (if a@.len() > 0 {
                SavePlan::WithAnswer
            } else {
                SavePlan::PromptOnly
            }),
            None => p == SavePlan::PromptOnly,
        },
{
    if !directive.reuse_enabled() {
        return SavePlan::Disabled;
    }
    match answer {
        Some(a) => {
            if a.is_empty() {
                SavePlan::PromptOnly
            } else {
                SavePlan::WithAnswer
            }
        },
        None => SavePlan::PromptOnly,
    }
}

/// Whether the exit half must retry the prompt boundary: only when the entry
/// save did not land and a checkpoint is wanted at all.
pub fn prompt_retry_wanted(already_saved: bool, directive: &BoundaryDirective, tokens: &[u32]) -> (r: bool)
    ensures
        r == (!already_saved && reuse_on(*directive) && tokens@.len() > 0),
        r == (!already_saved && directive.enabled && directive.key@.len() > 0 && tokens@.len() > 0),
{
    !already_saved && checkpoint_wanted(directive, tokens)
}

/// The generated boundary: the canonical prompt followed by the assistant
/// turn, which is what the next turn's history builds to.
pub fn full_boundary(canonical: &Vec<u32>, assistant: &Vec<u32>) -> (full: Vec<u32>)
    ensures
        full@ == canonical@ + assistant@,
{
    let mut full: Vec<u32> = Vec::new();
    let mut i: usize = 0;
    while i < canonical.len()
        invariant
            0 <= i <= canonical@.len(),
            full@ == canonical@.take(i as int),
        decreases canonical.len() - i,
    {
        full.push(canonical[i]);
        i = i + 1;
        assert(full@ =~= canonical@.take(i as int));
    }
    let mut j: usize = 0;
    while j < assistant.len()
        invariant
            0 <= j <= assistant@.len(),
            full@ == canonical@ + assistant@.take(j as int),
        decreases assistant.len() - j,
    {
        full.push(assistant[j]);
        j = j + 1;
        assert(full@ =~= canonical@ + assistant@.take(j as int));
    }
    assert(assistant@.take(assistant@.len() as int) =~= assistant@);
    full
}

/// What the exit half reports, by plan: nothing when disabled, the prompt
/// boundary alone when there is no visible answer, both otherwise.
pub open spec fn settled(plan: SavePlan, prompt_saved: bool, full_saved: bool) -> SaveOutcome {
    match plan {
        SavePlan::Disabled => SaveOutcome { prompt_saved: false, full_saved: false },
        SavePlan::PromptOnly => SaveOutcome { prompt_saved, full_saved: false },
        SavePlan::WithAnswer => SaveOutcome { prompt_saved, full_saved },
    }
}

/// The outcome of the exit half once its saves have been attempted.
pub fn settle_save(plan: SavePlan, prompt_saved: bool, full_saved: bool) -> (o: SaveOutcome)
    ensures
        o == settled(plan, prompt_saved, full_saved),
        plan == SavePlan::Disabled ==> !o.prompt_saved && !o.full_saved,
        plan != SavePlan::Disabled ==> o.prompt_saved == prompt_saved,
        plan == SavePlan::WithAnswer ==> o.full_saved == full_saved,
        plan != SavePlan::WithAnswer ==> !o.full_saved,
{
    match plan {
        SavePlan::Disabled => SaveOutcome::disabled(),
        SavePlan::PromptOnly => SaveOutcome { prompt_saved, full_saved: false },
        SavePlan::WithAnswer => SaveOutcome { prompt_saved, full_saved },
    }
}


/// A cold start reports every token as appended, nothing as reused, and is
/// never taken for a resident hit.
pub proof fn lemma_cold_start_is_never_a_hit(total: usize)
    ensures
        cold_outcome(total).reused_tokens + cold_outcome(total).appended_tokens == total,
        !cold_outcome(total).found,
        !cold_outcome(total).exact,
        !resident_hit(cold_outcome(total)),
{
}

/// Only a found boundary whose engine report shows no replayed page and no
/// replayed recurrent state is a hit; an unreported replay is never a hit.
pub proof fn lemma_hit_needs_confirmed_residency(o: OpenOutcome)
    ensures
        resident_hit(o) ==> o.found,
        o.replayed_pages is None ==> !resident_hit(o),
        (o.replayed_pages matches Some(p) && p > 0) ==> !resident_hit(o),
        o.rs_replayed ==> !resident_hit(o),
{
}

/// The wire projection keeps everything a hit is judged by, so every mode
/// reads the same verdict off the diagnostics.
pub proof fn lemma_projection_keeps_the_verdict(o: OpenOutcome)
    ensures
        resident_hit(o) == (kv_of(o).boundary_found && kv_of(o).replayed_pages == Some(0u32)
            && !kv_of(o).rs_replayed),
        kv_of(o).boundary_found == o.found,
        kv_of(o).resident_pages == o.resident_pages,
        kv_of(o).replayed_pages == o.replayed_pages,
{
}

/// A reused boundary accounts for every canonical token: reused plus
/// appended is the canonical length, and the boundary is exact exactly when
/// nothing had to be appended.
pub proof fn lemma_reuse_accounts_for_every_token(prefix_len: usize, canonical_len: usize, report: OpenReport)
    requires
        prefix_len <= canonical_len,
    ensures
        hit_outcome(prefix_len as nat, canonical_len as nat, report).reused_tokens
            + hit_outcome(prefix_len as nat, canonical_len as nat, report).appended_tokens
            == canonical_len,
        hit_outcome(prefix_len as nat, canonical_len as nat, report).exact == (hit_outcome(
            prefix_len as nat,
            canonical_len as nat,
            report,
        ).appended_tokens == 0),
        hit_outcome(prefix_len as nat, canonical_len as nat, report).found,
{
}

/// A boundary that differs from the canonical prompt at any position it
/// covers is not a prefix of it, whatever its length; in particular a
/// same-length boundary of another conversation is never reused.
pub proof fn lemma_foreign_boundary_is_refused(prefix: Seq<u32>, canonical: Seq<u32>, at: int)
    requires
        0 <= at < prefix.len(),
        at < canonical.len(),
        prefix[at] != canonical[at],
    ensures
        !is_prefix(prefix, canonical),
{
    if is_prefix(prefix, canonical) {
        assert(canonical.subrange(0, prefix.len() as int)[at] == canonical[at]);
    }
}

/// The boundaries a turn leaves behind are found by the turns that continue
/// it: the prompt boundary is a prefix of the generated boundary, and both
/// are prefixes of any later prompt that extends the generated boundary.
pub proof fn lemma_saved_boundaries_prefix_their_continuations(
    canonical: Seq<u32>,
    assistant: Seq<u32>,
    later: Seq<u32>,
)
    ensures
        is_prefix(canonical, canonical + assistant),
        is_prefix(canonical + assistant, canonical + assistant + later),
        is_prefix(canonical, canonical + assistant + later),
{
    assert((canonical + assistant).subrange(0, canonical.len() as int) =~= canonical);
    assert((canonical + assistant + later).subrange(0, (canonical + assistant).len() as int)
        =~= canonical + assistant);
    assert((canonical + assistant + later).subrange(0, canonical.len() as int) =~= canonical);
}

/// An empty key is the no-reuse signal: no checkpoint is taken and the exit
/// half attempts and reports nothing, whatever the turn produced.
pub proof fn lemma_empty_key_disables_reuse(d: BoundaryDirective, answer: Option<&str>, prompt_saved: bool, full_saved: bool)
    requires
        d.key@.len() == 0,
    ensures
        !reuse_on(d),
        save_plan(d, answer) == SavePlan::Disabled,
        !settled(save_plan(d, answer), prompt_saved, full_saved).prompt_saved,
        !settled(save_plan(d, answer), prompt_saved, full_saved).full_saved,
{
}

/// The generated boundary is reported saved only for a turn with reuse on
/// and a visible answer; a turn without one can still report its prompt
/// boundary.
pub proof fn lemma_full_boundary_needs_a_visible_answer(d: BoundaryDirective, answer: Option<&str>, prompt_saved: bool, full_saved: bool)
    ensures
        settled(save_plan(d, answer), prompt_saved, full_saved).full_saved ==> reuse_on(d)
            && visible_answer(answer),
        reuse_on(d) && !visible_answer(answer) ==> settled(save_plan(d, answer), prompt_saved, full_saved)
            == (SaveOutcome { prompt_saved, full_saved: false }),
{
}


/// An accepted rung reports the engine's account unchanged: the resident and
/// replayed page counts and the recurrent-state replay flag go through as
/// they came, independently of each other, and the outcome is a resident hit
/// exactly when no page and no recurrent state was replayed. In particular a
/// hybrid model whose recurrent state was replayed while every KV page was
/// resident is not a hit.
pub proof fn lemma_accepted_rung_carries_the_engine_report(prefix_len: nat, canonical_len: nat, report: OpenReport)
    ensures
        hit_outcome(prefix_len, canonical_len, report).found,
        hit_outcome(prefix_len, canonical_len, report).resident_pages == Some(report.resident_prefix_pages),
        hit_outcome(prefix_len, canonical_len, report).replayed_pages == Some(report.replayed_pages),
        hit_outcome(prefix_len, canonical_len, report).rs_replayed == report.rs_replayed,
        resident_hit(hit_outcome(prefix_len, canonical_len, report)) == (report.replayed_pages == 0
            && !report.rs_replayed),
        report.rs_replayed ==> !resident_hit(hit_outcome(prefix_len, canonical_len, report)),
{
}

/// The exit half reports each save as it landed: outside a disabled plan the
/// prompt boundary is reported exactly as its save landed, whether or not an
/// answer boundary was saved too; the answer boundary is reported exactly as
/// its save landed under a plan with an answer, and never otherwise.
pub proof fn lemma_settled_reports_each_save_as_it_landed(plan: SavePlan, prompt_saved: bool, full_saved: bool)
    ensures
        plan != SavePlan::Disabled ==> settled(plan, prompt_saved, full_saved).prompt_saved == prompt_saved,
        plan == SavePlan::WithAnswer ==> settled(plan, prompt_saved, full_saved).full_saved == full_saved,
        plan != SavePlan::WithAnswer ==> !settled(plan, prompt_saved, full_saved).full_saved,
        plan == SavePlan::Disabled ==> !settled(plan, prompt_saved, full_saved).prompt_saved,
{
}

/// Reuse is on exactly for an enabled directive with a non-empty key: the
/// compatibility tag and the turn number play no part, so two directives that
/// agree on the flag and the key agree on reuse.
pub proof fn lemma_reuse_depends_on_flag_and_key_only(d: BoundaryDirective, e: BoundaryDirective)
    ensures
        reuse_on(d) == (d.enabled && d.key@.len() > 0),
        (d.enabled == e.enabled && d.key@ == e.key@) ==> reuse_on(d) == reuse_on(e),
{
}

/// The wire projection carries every field it keeps unchanged, the reused
/// token count narrowed exactly as a cast to 32 bits narrows it; an exact
/// boundary is reported with its full token count.
pub proof fn lemma_projection_carries_the_counts(o: OpenOutcome)
    ensures
        kv_of(o).reused_tokens == o.reused_tokens as u32,
        o.reused_tokens <= u32::MAX ==> kv_of(o).reused_tokens == o.reused_tokens,
        kv_of(o).boundary_found == o.found,
        kv_of(o).resident_pages == o.resident_pages,
        kv_of(o).replayed_pages == o.replayed_pages,
        kv_of(o).rs_replayed == o.rs_replayed,
{
}

/// A boundary is a prefix exactly when it is no longer than the prompt and
/// agrees with it token by token.
pub proof fn lemma_prefix_is_tokenwise_agreement(prefix: Seq<u32>, full: Seq<u32>)
    ensures
        is_prefix(prefix, full) <==> (prefix.len() <= full.len() && forall|i: int|
            0 <= i < prefix.len() ==> prefix[i] == full[i]),
{
    if prefix.len() <= full.len() && forall|i: int| 0 <= i < prefix.len() ==> prefix[i] == full[i] {
        assert(full.subrange(0, prefix.len() as int) =~= prefix);
    }
    if is_prefix(prefix, full) {
        assert forall|i: int| 0 <= i < prefix.len() implies prefix[i] == full[i] by {
            assert(full.subrange(0, prefix.len() as int)[i] == full[i]);
        }
    }
}


/// The rungs kept from a ladder are never empty, never more than were
/// built, and when every rung was built non-empty all of them are kept in
/// ladder order.
pub proof fn lemma_rungs_are_usable(built: Seq<Option<Seq<u32>>>)
    ensures
        rungs_of(built).len() <= built.len(),
        forall|i: int| 0 <= i < rungs_of(built).len() ==> (#[trigger] rungs_of(built)[i]).len() > 0,
        (forall|j: int| 0 <= j < built.len() ==> (#[trigger] built[j] matches Some(t) && t.len() > 0))
            ==> rungs_of(built).len() == built.len() && forall|i: int|
            0 <= i < built.len() ==> Some(#[trigger] rungs_of(built)[i]) == built[i],
    decreases built.len(),
{
    if built.len() > 0 {
        let rest = built.drop_last();
        lemma_rungs_are_usable(rest);
        if forall|j: int| 0 <= j < built.len() ==> (#[trigger] built[j] matches Some(t) && t.len() > 0) {
            assert forall|j: int| 0 <= j < rest.len() implies (#[trigger] rest[j] matches Some(t) && t.len() > 0) by {
                assert(rest[j] == built[j]);
            }
            assert(built[built.len() - 1] matches Some(t) && t.len() > 0);
        }
    }
}

} // verus!
