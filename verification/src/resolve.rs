use vstd::prelude::*;

use crate::cli::Task;
use crate::error::TokensmithError;
use crate::heuristics::{
    deref_all, budget_of, budget_reason, choose_quant_and_ctx, model_candidates, quant_choice,
    selected_reason, task_models_in_tier, texts,
};
use crate::memory::MemoryConfig;
use crate::paths::{model_file, TokensmithPaths};
use crate::profiler::HardwareProfile;
use crate::profiles::Mode;
use crate::registry::{entries_view, ModelEntry, ModelEntryView, Registry};
use crate::selector::{
    candidates_fit, first_fit, first_fit_fits, recommend, recommend_fits, selection_reasons,
    thread_count, threads_for, Selection,
};
use crate::state::AppConfig;
use crate::text::{
    chars_of, index_of, index_of_exec, parse_uint, parse_uint_range, str_eq, trim_end_char,
    trim_end_char_exec,
};

verus! {

/// An integer read as `str::parse::<u32>` reads it, or 0 when it is not one.
pub open spec fn u32_or_zero(s: Seq<char>) -> int {
    match parse_uint(s, u32::MAX as int) {
        Ok(v) => v,
        Err(_) => 0,
    }
}

/// `x` capped at `u32::MAX`.
pub open spec fn cap_u32(x: int) -> int {
    if x > u32::MAX { u32::MAX as int } else { x }
}

/// A size class such as "7b" or "1.5b" in hundredths of billions of parameters:
/// trailing `b`s dropped, whole part times 100 plus the fraction's digits read as an
/// integer, saturating; unreadable parts count as 0.
pub open spec fn size_rank_of(size_class: Seq<char>) -> u32 {
    let cleaned = trim_end_char(size_class, 'b');
    match index_of(cleaned, '.') {
        Some(i) => cap_u32(
            cap_u32(u32_or_zero(cleaned.subrange(0, i)) * 100) + u32_or_zero(cleaned.subrange(i + 1, cleaned.len() as int)),
        ) as u32,
        None => cap_u32(u32_or_zero(cleaned) * 100) as u32,
    }
}

fn u32_or_zero_range(cs: &Vec<char>, lo: usize, hi: usize) -> (r: u32)
    requires
        lo <= hi <= cs@.len(),
    ensures
        r == u32_or_zero(cs@.subrange(lo as int, hi as int)),
{
    match parse_uint_range(cs, lo, hi, u32::MAX as u64) {
        Ok(v) => v as u32,
        Err(_) => 0,
    }
}

pub fn size_rank(size_class: &str) -> (r: u32)
    ensures
        r == size_rank_of(size_class@),
{
    let cs = chars_of(size_class);
    let end = trim_end_char_exec(&cs, 0, cs.len(), 'b');
    assert(cs@.subrange(0, cs@.len() as int) == size_class@);
    let ghost cleaned = cs@.subrange(0, end as int);
    match index_of_exec(&cs, 0, end, '.') {
        Some(dot) => {
            assert(cleaned.subrange(0, dot as int) == cs@.subrange(0, dot as int));
            assert(cleaned.subrange(dot + 1, cleaned.len() as int) == cs@.subrange(dot + 1, end as int));
            let w = u32_or_zero_range(&cs, 0, dot);
            let f = u32_or_zero_range(&cs, dot + 1, end);
            let hundreds = match w.checked_mul(100) {
                Some(v) => v,
                None => u32::MAX,
            };
            assert(index_of(cleaned, '.') == Some(dot as int));
            assert(hundreds == cap_u32(w * 100));
            let r = hundreds.saturating_add(f);
            assert(r == cap_u32(cap_u32(w * 100) + f));
            r
        },
        None => {
            assert(index_of(cleaned, '.') is None);
            assert(cs@.subrange(0, end as int) == cleaned);
            match u32_or_zero_range(&cs, 0, end).checked_mul(100) {
                Some(v) => v,
                None => u32::MAX,
            }
        },
    }
}

/// The entries whose weights file is present, in registry order.
pub open spec fn present_models(ms: Seq<ModelEntryView>, present: Seq<bool>) -> Seq<ModelEntryView>
    decreases ms.len(),
{
    if ms.len() == 0 || present.len() == 0 {
        seq![]
    } else {
        (if present[0] { seq![ms[0]] } else { seq![] }) + present_models(ms.drop_first(), present.drop_first())
    }
}

/// The entries for `task`, in order.
pub open spec fn models_for_task(ms: Seq<ModelEntryView>, task: Seq<char>) -> Seq<ModelEntryView>
    decreases ms.len(),
{
    if ms.len() == 0 {
        seq![]
    } else {
        (if ms[0].task@ == task { seq![ms[0]] } else { seq![] }) + models_for_task(ms.drop_first(), task)
    }
}

/// Inserts `x` after every entry whose size rank is at most its own (one step of a stable
/// sort by size rank).
pub open spec fn insert_by_size(sorted: Seq<ModelEntryView>, x: ModelEntryView) -> Seq<ModelEntryView>
    decreases sorted.len(),
{
    if sorted.len() == 0 {
        seq![x]
    } else if size_rank_of(sorted.last().size_class@) <= size_rank_of(x.size_class@) {
        sorted.push(x)
    } else {
        insert_by_size(sorted.drop_last(), x).push(sorted.last())
    }
}

/// The entries stably sorted by size rank, smallest first.
pub open spec fn sort_by_size(ms: Seq<ModelEntryView>) -> Seq<ModelEntryView>
    decreases ms.len(),
{
    if ms.len() == 0 {
        seq![]
    } else {
        insert_by_size(sort_by_size(ms.drop_last()), ms.last())
    }
}

/// The order local models are tried in when no model for the task fits: largest size
/// rank first (a stable sort by rank, reversed).
pub open spec fn fallback_order(ms: Seq<ModelEntryView>) -> Seq<ModelEntryView> {
    sort_by_size(ms).reverse()
}

/// How a set of local models resolves: the recommendation among the local models for the
/// task when one fits (`false`), else the first model of any task, in fallback order, that
/// fits (`true`).
pub open spec fn local_choice(
    locals: Seq<ModelEntryView>,
    task: Task,
    mode: Mode,
    hw: HardwareProfile,
    cfg: MemoryConfig,
) -> Option<(ModelEntryView, Seq<char>, u32, bool)> {
    let for_task = models_for_task(locals, task.name());
    let by_task = first_fit(model_candidates(for_task, task.name()), mode, hw, cfg);
    match by_task {
        Some((m, q, c)) => Some((m, q, c, false)),
        None => match first_fit(fallback_order(locals), mode, hw, cfg) {
            Some((m, q, c)) => Some((m, q, c, true)),
            None => None,
        },
    }
}

/// No estimate computed while resolving among local models overflows.
pub open spec fn local_choice_fits(
    locals: Seq<ModelEntryView>,
    task: Task,
    mode: Mode,
    hw: HardwareProfile,
    cfg: MemoryConfig,
) -> bool {
    let for_task = models_for_task(locals, task.name());
    let by_task = first_fit(model_candidates(for_task, task.name()), mode, hw, cfg);
    &&& first_fit_fits(model_candidates(for_task, task.name()), mode, hw, cfg)
    &&& by_task is None ==> first_fit_fits(fallback_order(locals), mode, hw, cfg)
}

/// The reason added when a model for another task is used.
pub open spec fn fallback_reason() -> Seq<char> {
    "fallback: using locally available model with task mismatch"@
}

/// The entries whose weights file is present.
pub fn local_models_in_registry(registry: &Registry, present: &Vec<bool>) -> (r: Vec<ModelEntry>)
    requires
        present@.len() == registry.models@.len(),
    ensures
        entries_view(r@) == present_models(entries_view(registry.models@), present@),
{
    let ms = &registry.models;
    let ghost es = entries_view(ms@);
    let mut r: Vec<ModelEntry> = Vec::new();
    let mut i: usize = 0;
    assert(es.skip(0) == es);
    assert(present@.skip(0) == present@);
    while i < ms.len()
        invariant
            i <= ms@.len(),
            es == entries_view(ms@),
            present@.len() == ms@.len(),
            present_models(es, present@) == entries_view(r@) + present_models(es.skip(i as int), present@.skip(i as int)),
        decreases ms.len() - i,
    {
        assert(es.skip(i as int).drop_first() == es.skip(i + 1));
        assert(present@.skip(i as int).drop_first() == present@.skip(i + 1));
        assert(es.skip(i as int)[0] == ms@[i as int]@);
        assert(present@.skip(i as int)[0] == present@[i as int]);
        let ghost before = r@;
        let ghost tail = present_models(es.skip(i + 1), present@.skip(i + 1));
        if present[i] {
            r.push(ms[i].clone());
            assert(entries_view(r@) =~= entries_view(before).push(ms@[i as int]@));
            assert(entries_view(before) + (seq![ms@[i as int]@] + tail) =~= entries_view(before).push(ms@[i as int]@) + tail);
        } else {
            assert(Seq::<ModelEntryView>::empty() + tail =~= tail);
        }
        i += 1;
    }
    assert(es.skip(i as int).len() == 0);
    assert(entries_view(r@) + Seq::<ModelEntryView>::empty() =~= entries_view(r@));
    r
}


fn insert_by_size_exec(v: &mut Vec<ModelEntry>, x: ModelEntry)
    ensures
        entries_view(final(v)@) == insert_by_size(entries_view(old(v)@), x@),
    decreases old(v)@.len(),
{
    let n = v.len();
    if n == 0 {
        v.push(x);
        assert(entries_view(v@) =~= seq![x@]);
        return;
    }
    let ghost before = v@;
    assert(entries_view(before).last() == before.last()@);
    if size_rank(v[n - 1].size_class.as_str()) <= size_rank(x.size_class.as_str()) {
        v.push(x);
        assert(entries_view(v@) =~= entries_view(before).push(x@));
    } else {
        let last = v.pop().unwrap();
        assert(entries_view(v@) =~= entries_view(before).drop_last());
        insert_by_size_exec(v, x);
        let ghost mid = v@;
        v.push(last);
        assert(entries_view(v@) =~= entries_view(mid).push(last@));
    }
}

fn sort_by_size_exec(v: &mut Vec<ModelEntry>)
    ensures
        entries_view(final(v)@) == sort_by_size(entries_view(old(v)@)),
    decreases old(v)@.len(),
{
    let ghost before = v@;
    match v.pop() {
        None => {
            assert(entries_view(before) =~= Seq::<ModelEntryView>::empty());
        },
        Some(x) => {
            assert(entries_view(v@) =~= entries_view(before).drop_last());
            assert(entries_view(before).last() == x@);
            sort_by_size_exec(v);
            insert_by_size_exec(v, x);
        },
    }
}

/// The entries in reverse order (by moving them).
fn reversed(v: Vec<ModelEntry>) -> (r: Vec<ModelEntry>)
    ensures
        entries_view(r@) == entries_view(v@).reverse(),
{
    let mut src = v;
    let ghost all = entries_view(src@);
    let mut r: Vec<ModelEntry> = Vec::new();
    while src.len() > 0
        invariant
            entries_view(src@) + entries_view(r@).reverse() == all,
        decreases src@.len(),
    {
        let ghost s0 = src@;
        let ghost r0 = r@;
        let x = src.pop().unwrap();
        assert(entries_view(src@) =~= entries_view(s0).drop_last());
        r.push(x);
        assert(entries_view(r@) =~= entries_view(r0).push(x@));
        assert(entries_view(src@) + entries_view(r@).reverse() =~= entries_view(s0) + entries_view(r0).reverse());
    }
    assert(entries_view(src@) =~= Seq::<ModelEntryView>::empty());
    assert(entries_view(r@).reverse().reverse() =~= entries_view(r@));
    assert(all.reverse() =~= entries_view(r@));
    r
}

/// The entries for `task` (copies).
fn models_for_task_exec(ms: &Vec<ModelEntry>, task: &str) -> (r: Vec<ModelEntry>)
    ensures
        entries_view(r@) == models_for_task(entries_view(ms@), task@),
{
    let ghost es = entries_view(ms@);
    let mut r: Vec<ModelEntry> = Vec::new();
    let mut i: usize = 0;
    assert(es.skip(0) == es);
    while i < ms.len()
        invariant
            i <= ms@.len(),
            es == entries_view(ms@),
            models_for_task(es, task@) == entries_view(r@) + models_for_task(es.skip(i as int), task@),
        decreases ms.len() - i,
    {
        assert(es.skip(i as int).drop_first() == es.skip(i + 1));
        assert(es.skip(i as int)[0] == ms@[i as int]@);
        let ghost before = r@;
        let ghost tail = models_for_task(es.skip(i + 1), task@);
        if str_eq(ms[i].task.as_str(), task) {
            r.push(ms[i].clone());
            assert(entries_view(r@) =~= entries_view(before).push(ms@[i as int]@));
            assert(entries_view(before) + (seq![ms@[i as int]@] + tail) =~= entries_view(before).push(ms@[i as int]@) + tail);
        } else {
            assert(Seq::<ModelEntryView>::empty() + tail =~= tail);
        }
        i += 1;
    }
    assert(es.skip(i as int).len() == 0);
    assert(entries_view(r@) + Seq::<ModelEntryView>::empty() =~= entries_view(r@));
    r
}

/// What a resolution among local models yields: the selection's model, quantization,
/// context and threads, the path of the model file, and the reasons.
pub open spec fn resolved(
    r: (Selection, String),
    root: Seq<char>,
    m: ModelEntryView,
    q: Seq<char>,
    c: u32,
    fallback: bool,
    hw: HardwareProfile,
    mode: Mode,
    cfg: MemoryConfig,
) -> bool {
    &&& r.0.model@ == m
    &&& r.0.quantization@ == q
    &&& r.0.context_tokens == c
    &&& r.0.threads == thread_count(hw)
    &&& r.1@ == model_file(root, m.id@)
    &&& texts(r.0.reasons@) == if fallback {
        seq![budget_reason(budget_of(hw, cfg) as nat), selected_reason(q, c), fallback_reason()]
    } else {
        selection_reasons(
            seq![budget_reason(budget_of(hw, cfg) as nat), selected_reason(q, c)],
            thread_count(hw),
            mode,
        )
    }
}

/// Resolves among the local models: the recommendation among those for the task, else the
/// first of any task, in fallback order, that fits.
fn resolve_among_locals(
    paths: &TokensmithPaths,
    locals: Vec<ModelEntry>,
    profile: &HardwareProfile,
    task: Task,
    mode: Mode,
    cfg: &MemoryConfig,
) -> (r: Option<(Selection, String)>)
    requires
        local_choice_fits(entries_view(locals@), task, mode, *profile, *cfg),
    ensures
        match local_choice(entries_view(locals@), task, mode, *profile, *cfg) {
            None => r is None,
            Some((m, q, c, fallback)) => r matches Some(x) && resolved(x, paths.root_view(), m, q, c, fallback, *profile, mode, *cfg),
        },
{
    let ghost ls = entries_view(locals@);
    let task_name = task.to_string();
    let for_task = models_for_task_exec(&locals, task_name.as_str());
    let ghost ft = models_for_task(ls, task.name());
    if for_task.len() > 0 {
        let local_registry = Registry { models: for_task };
        match recommend(&local_registry, profile, task, mode, cfg) {
            Ok(sel) => {
                let path = paths.model_file(sel.model.id.as_str());
                return Some((sel, path));
            },
            Err(_) => {},
        }
    } else {
        assert(ft =~= Seq::<ModelEntryView>::empty());
        assert(task_models_in_tier(ft, task.name(), 3) =~= Seq::<ModelEntryView>::empty());
        assert(task_models_in_tier(ft, task.name(), 2) =~= Seq::<ModelEntryView>::empty());
        assert(task_models_in_tier(ft, task.name(), 1) =~= Seq::<ModelEntryView>::empty());
        assert(model_candidates(ft, task.name()) =~= Seq::<ModelEntryView>::empty());
    }
    assert(first_fit(model_candidates(ft, task.name()), mode, *profile, *cfg) is None);
    let mut sorted = locals;
    sort_by_size_exec(&mut sorted);
    let candidates = reversed(sorted);
    let ghost cands = fallback_order(ls);
    assert(entries_view(candidates@) == cands);
    let mut i: usize = 0;
    assert(cands.skip(0) == cands);
    while i < candidates.len()
        invariant
            i <= candidates@.len(),
            entries_view(candidates@) == cands,
            cands == fallback_order(ls),
            ls == entries_view(locals@),
            first_fit(model_candidates(ft, task.name()), mode, *profile, *cfg) is None,
            ft == models_for_task(ls, task.name()),
            first_fit(cands, mode, *profile, *cfg) == first_fit(cands.skip(i as int), mode, *profile, *cfg),
            first_fit_fits(cands.skip(i as int), mode, *profile, *cfg),
        decreases candidates.len() - i,
    {
        let m = &candidates[i];
        let ghost rest = cands.skip(i as int);
        assert(rest.drop_first() == cands.skip(i + 1));
        assert(rest[0] == m@);
        match choose_quant_and_ctx(m, mode, profile, cfg) {
            Some((quant, ctx, reasons)) => {
                assert(quant_choice(m@, mode, *profile, *cfg) == Some((quant@, ctx)));
                assert(texts(reasons@) == seq![
                    budget_reason(budget_of(*profile, *cfg) as nat),
                    selected_reason(quant@, ctx),
                ]);
                let mut reasons = reasons;
                let threads = threads_for(profile);
                let ghost r0 = reasons@;
                reasons.push(String::from_str("fallback: using locally available model with task mismatch"));
                assert(texts(reasons@) =~= texts(r0).push(fallback_reason()));
                let sel = Selection {
                    model: m.clone(),
                    quantization: quant,
                    context_tokens: ctx,
                    threads,
                    reasons,
                };
                let path = paths.model_file(sel.model.id.as_str());
                assert(first_fit(rest, mode, *profile, *cfg) == Some((m@, quant@, ctx)));
                assert(texts(sel.reasons@) =~= seq![
                    budget_reason(budget_of(*profile, *cfg) as nat),
                    selected_reason(sel.quantization@, ctx),
                    fallback_reason(),
                ]);
                return Some((sel, path));
            },
            None => {},
        }
        i += 1;
    }
    assert(cands.skip(i as int).len() == 0);
    None
}

/// The message when the recommended model is missing and no model is present at all.
pub open spec fn no_cache_message(path: Seq<char>, id: Seq<char>) -> Seq<char> {
    "model file not found at "@ + path + ". No local model cache found. Run `tokensmith pull "@ + id
        + "` first."@
}

/// The message when the recommended model is missing and no present model fits.
pub open spec fn no_local_fit_message(id: Seq<char>) -> Seq<char> {
    "recommended model '"@ + id + "' is not local, and no local model fits memory for this mode. Try `tokensmith pull "@
        + id + "` or lower memory pressure (close apps / reduce context)."@
}

/// Uses the preferred selection when its model file is present; otherwise falls back to
/// the models whose files are present (`present[i]` for registry entry `i`).
pub fn resolve_selection_with_local_fallback(
    paths: &TokensmithPaths,
    registry: &Registry,
    profile: &HardwareProfile,
    task: Task,
    mode: Mode,
    config: &AppConfig,
    preferred: Selection,
    preferred_exists: bool,
    present: &Vec<bool>,
) -> (r: Result<(Selection, String), TokensmithError>)
    requires
        present@.len() == registry.models@.len(),
        !preferred_exists ==> local_choice_fits(
            present_models(entries_view(registry.models@), present@),
            task,
            mode,
            *profile,
            config.optimizer,
        ),
    ensures
        preferred_exists ==> (r matches Ok(x) && x.0 == preferred && x.1@ == model_file(
            paths.root_view(),
            preferred.model.id@,
        )),
        !preferred_exists && present_models(entries_view(registry.models@), present@).len() == 0 ==> (r matches Err(
            TokensmithError::Runtime(msg),
        ) && msg@ == no_cache_message(model_file(paths.root_view(), preferred.model.id@), preferred.model.id@)),
        !preferred_exists && present_models(entries_view(registry.models@), present@).len() > 0 ==> match local_choice(
            present_models(entries_view(registry.models@), present@),
            task,
            mode,
            *profile,
            config.optimizer,
        ) {
            None => r matches Err(TokensmithError::Runtime(msg)) && msg@ == no_local_fit_message(preferred.model.id@),
            Some((m, q, c, fallback)) => r matches Ok(x) && resolved(x, paths.root_view(), m, q, c, fallback, *profile, mode, config.optimizer),
        },
{
    let preferred_path = paths.model_file(preferred.model.id.as_str());
    if preferred_exists {
        return Ok((preferred, preferred_path));
    }
    let locals = local_models_in_registry(registry, present);
    if locals.len() == 0 {
        let mut msg = String::from_str("model file not found at ");
        msg.append(preferred_path.as_str());
        msg.append(". No local model cache found. Run `tokensmith pull ");
        msg.append(preferred.model.id.as_str());
        msg.append("` first.");
        return Err(TokensmithError::Runtime(msg));
    }
    match resolve_among_locals(paths, locals, profile, task, mode, &config.optimizer) {
        Some(x) => Ok(x),
        None => {
            let mut msg = String::from_str("recommended model '");
            msg.append(preferred.model.id.as_str());
            msg.append("' is not local, and no local model fits memory for this mode. Try `tokensmith pull ");
            msg.append(preferred.model.id.as_str());
            msg.append("` or lower memory pressure (close apps / reduce context).");
            Err(TokensmithError::Runtime(msg))
        },
    }
}

/// The message when no model file is present at all.
pub open spec fn no_local_cache_message() -> Seq<char> {
    "no local model cache found. Pull one with `tokensmith pull <model_id>` first."@
}

/// The message when no present model fits.
pub open spec fn no_local_model_fits_message(mode: Mode) -> Seq<char> {
    "no local model fits memory for mode '"@ + mode.name()
        + "'. Pull a smaller model (for example qwen2.5-1.5b-instruct) or lower memory pressure."@
}

/// Chooses among the models whose files are present (`present[i]` for registry entry `i`)
/// when no recommendation fits.
pub fn resolve_local_only_selection(
    paths: &TokensmithPaths,
    registry: &Registry,
    profile: &HardwareProfile,
    task: Task,
    mode: Mode,
    config: &AppConfig,
    present: &Vec<bool>,
) -> (r: Result<(Selection, String), TokensmithError>)
    requires
        present@.len() == registry.models@.len(),
        local_choice_fits(present_models(entries_view(registry.models@), present@), task, mode, *profile, config.optimizer),
    ensures
        present_models(entries_view(registry.models@), present@).len() == 0 ==> (r matches Err(
            TokensmithError::Runtime(msg),
        ) && msg@ == no_local_cache_message()),
        present_models(entries_view(registry.models@), present@).len() > 0 ==> match local_choice(
            present_models(entries_view(registry.models@), present@),
            task,
            mode,
            *profile,
            config.optimizer,
        ) {
            None => r matches Err(TokensmithError::Runtime(msg)) && msg@ == no_local_model_fits_message(mode),
            Some((m, q, c, fallback)) => r matches Ok(x) && resolved(x, paths.root_view(), m, q, c, fallback, *profile, mode, config.optimizer),
        },
{
    let locals = local_models_in_registry(registry, present);
    if locals.len() == 0 {
        return Err(TokensmithError::Runtime(String::from_str(
            "no local model cache found. Pull one with `tokensmith pull <model_id>` first.",
        )));
    }
    match resolve_among_locals(paths, locals, profile, task, mode, &config.optimizer) {
        Some(x) => Ok(x),
        None => {
            let mut msg = String::from_str("no local model fits memory for mode '");
            msg.append(mode.as_str());
            msg.append("'. Pull a smaller model (for example qwen2.5-1.5b-instruct) or lower memory pressure.");
            Err(TokensmithError::Runtime(msg))
        },
    }
}


/// References to the entries of a vector, in order.
fn refs_of(v: &Vec<ModelEntry>) -> (r: Vec<&ModelEntry>)
    ensures
        deref_all(r@) == entries_view(v@),
{
    let mut r: Vec<&ModelEntry> = Vec::new();
    let mut i: usize = 0;
    while i < v.len()
        invariant
            i <= v@.len(),
            deref_all(r@) == entries_view(v@.take(i as int)),
        decreases v.len() - i,
    {
        let ghost r0 = r@;
        r.push(&v[i]);
        assert(deref_all(r@) =~= deref_all(r0).push(v@[i as int]@));
        assert(entries_view(v@.take(i + 1)) =~= entries_view(v@.take(i as int)).push(v@[i as int]@));
        i += 1;
    }
    assert(v@.take(i as int) == v@);
    r
}

/// Whether the resolution among the present models may run: no estimate it computes
/// overflows.
pub fn local_resolution_fits(
    registry: &Registry,
    present: &Vec<bool>,
    profile: &HardwareProfile,
    task: Task,
    mode: Mode,
    cfg: &MemoryConfig,
) -> (r: bool)
    requires
        present@.len() == registry.models@.len(),
    ensures
        r == local_choice_fits(present_models(entries_view(registry.models@), present@), task, mode, *profile, *cfg),
{
    let locals = local_models_in_registry(registry, present);
    let ghost ls = entries_view(locals@);
    let task_name = task.to_string();
    let for_task = models_for_task_exec(&locals, task_name.as_str());
    let local_registry = Registry { models: for_task };
    if !recommend_fits(&local_registry, profile, task, mode, cfg) {
        return false;
    }
    match recommend(&local_registry, profile, task, mode, cfg) {
        Ok(_) => {
            return true;
        },
        Err(_) => {},
    }
    let mut sorted = locals;
    sort_by_size_exec(&mut sorted);
    let candidates = reversed(sorted);
    let refs = refs_of(&candidates);
    candidates_fit(&refs, profile, mode, cfg)
}

} // verus!
