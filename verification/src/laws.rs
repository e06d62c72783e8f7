use vstd::prelude::*;

use crate::cli::Task;
use crate::heuristics::{
    budget_of, context_candidates, first_fitting_context, index_of_quant, model_candidates,
    pick_quant, quant_choice, size_tier, task_models_in_tier,
};
use crate::memory::{estimate, MemoryConfig};
use crate::profiler::HardwareProfile;
use crate::profiles::Mode;
use crate::cli::{duration_result, millis_duration, secs_duration, strip_suffix};
use crate::registry::{entry_problem, first_problem, ModelEntry, ModelEntryView, QuantizationInfo};
use crate::resolve::{fallback_order, insert_by_size, local_choice, models_for_task, size_rank_of, sort_by_size};
use crate::selector::{first_fit, thread_count};
use crate::server::{chars_before, cleaned_body, is_boundary, max_error_body, truncated_body, utf8_len};
use crate::text::{contains, decimal, digit_char, digit_value, parse_digits, parse_uint, IntErrorKind};

verus! {

proof fn lemma_tier_members(ms: Seq<ModelEntryView>, t: Seq<char>, k: int)
    ensures
        forall|x: ModelEntryView| #[trigger] task_models_in_tier(ms, t, k).contains(x) ==> ms.contains(x)
            && x.task@ == t && size_tier(x.size_class@) == k,
        forall|x: ModelEntryView| #[trigger] ms.contains(x) && x.task@ == t && size_tier(x.size_class@) == k
            ==> task_models_in_tier(ms, t, k).contains(x),
    decreases ms.len(),
{
    if ms.len() > 0 {
        let rest = ms.drop_first();
        lemma_tier_members(rest, t, k);
        let head: Seq<ModelEntryView> = if ms[0].task@ == t && size_tier(ms[0].size_class@) == k {
            seq![ms[0]]
        } else {
            seq![]
        };
        let all = task_models_in_tier(ms, t, k);
        assert(all == head + task_models_in_tier(rest, t, k));
        assert forall|x: ModelEntryView| #[trigger] all.contains(x) implies ms.contains(x) && x.task@ == t
            && size_tier(x.size_class@) == k by {
            let i = choose|i: int| 0 <= i < all.len() && all[i] == x;
            if i < head.len() {
                assert(ms[0] == x);
            } else {
                assert(task_models_in_tier(rest, t, k)[i - head.len()] == x);
                assert(task_models_in_tier(rest, t, k).contains(x));
                assert(rest.contains(x));
                let j = choose|j: int| 0 <= j < rest.len() && rest[j] == x;
                assert(ms[j + 1] == x);
            }
        }
        assert forall|x: ModelEntryView| #[trigger] ms.contains(x) && x.task@ == t && size_tier(x.size_class@) == k
            implies all.contains(x) by {
            let i = choose|i: int| 0 <= i < ms.len() && ms[i] == x;
            if i == 0 {
                assert(all[0] == x);
            } else {
                assert(rest[i - 1] == x);
                assert(rest.contains(x));
                assert(task_models_in_tier(rest, t, k).contains(x));
                let j = choose|j: int| 0 <= j < task_models_in_tier(rest, t, k).len() && task_models_in_tier(rest, t, k)[j] == x;
                assert(all[j + head.len()] == x);
            }
        }
    }
}

proof fn lemma_reverse_contains(s: Seq<ModelEntryView>, x: ModelEntryView)
    ensures
        s.reverse().contains(x) == s.contains(x),
{
    if s.contains(x) {
        let i = choose|i: int| 0 <= i < s.len() && s[i] == x;
        assert(s.reverse()[s.len() - 1 - i] == x);
    }
    if s.reverse().contains(x) {
        let i = choose|i: int| 0 <= i < s.reverse().len() && s.reverse()[i] == x;
        assert(s[s.len() - 1 - i] == x);
    }
}

proof fn lemma_concat_contains(a: Seq<ModelEntryView>, b: Seq<ModelEntryView>, x: ModelEntryView)
    ensures
        (a + b).contains(x) == (a.contains(x) || b.contains(x)),
{
    if (a + b).contains(x) {
        let i = choose|i: int| 0 <= i < (a + b).len() && (a + b)[i] == x;
        if i < a.len() {
            assert(a[i] == x);
        } else {
            assert(b[i - a.len()] == x);
        }
    }
    if a.contains(x) {
        let i = choose|i: int| 0 <= i < a.len() && a[i] == x;
        assert((a + b)[i] == x);
    }
    if b.contains(x) {
        let i = choose|i: int| 0 <= i < b.len() && b[i] == x;
        assert((a + b)[i + a.len()] == x);
    }
}

/// The candidate models for a task are exactly the registry's models for that task.
pub proof fn lemma_candidates_are_task_models(ms: Seq<ModelEntryView>, task: Task, x: ModelEntryView)
    ensures
        model_candidates(ms, task.name()).contains(x) <==> (ms.contains(x) && x.task@ == task.name()),
{
    let t = task.name();
    lemma_tier_members(ms, t, 3);
    lemma_tier_members(ms, t, 2);
    lemma_tier_members(ms, t, 1);
    let a = task_models_in_tier(ms, t, 3).reverse();
    let b = task_models_in_tier(ms, t, 2).reverse();
    let c = task_models_in_tier(ms, t, 1).reverse();
    lemma_concat_contains(a + b, c, x);
    lemma_concat_contains(a, b, x);
    lemma_reverse_contains(task_models_in_tier(ms, t, 3), x);
    lemma_reverse_contains(task_models_in_tier(ms, t, 2), x);
    lemma_reverse_contains(task_models_in_tier(ms, t, 1), x);
    let k = size_tier(x.size_class@);
    assert(k == 1 || k == 2 || k == 3);
}

proof fn lemma_first_fitting_sound(w: u64, sc: Seq<char>, ctxs: Seq<u32>, cfg: MemoryConfig, budget: int)
    ensures
        first_fitting_context(w, sc, ctxs, cfg, budget) matches Some(c) ==> ctxs.contains(c) && estimate(w, sc, c, cfg) < budget,
        first_fitting_context(w, sc, ctxs, cfg, budget) is None ==> forall|c: u32| #[trigger] ctxs.contains(c) ==> estimate(w, sc, c, cfg) >= budget,
    decreases ctxs.len(),
{
    if ctxs.len() > 0 {
        lemma_first_fitting_sound(w, sc, ctxs.drop_first(), cfg, budget);
        if let Some(c) = first_fitting_context(w, sc, ctxs.drop_first(), cfg, budget) {
            let i = choose|i: int| 0 <= i < ctxs.drop_first().len() && ctxs.drop_first()[i] == c;
            assert(ctxs[i + 1] == c);
        }
        assert(ctxs[0] == ctxs[0]);
        assert forall|c: u32| #[trigger] ctxs.contains(c) && first_fitting_context(w, sc, ctxs, cfg, budget) is None implies estimate(w, sc, c, cfg) >= budget by {
            let i = choose|i: int| 0 <= i < ctxs.len() && ctxs[i] == c;
            if i > 0 {
                assert(ctxs.drop_first()[i - 1] == c);
                assert(ctxs.drop_first().contains(c));
            }
        }
    }
}

proof fn lemma_index_of_quant_sound(qs: Seq<QuantizationInfo>, name: Seq<char>)
    ensures
        index_of_quant(qs, name) matches Some(i) ==> 0 <= i < qs.len() && qs[i].name@ == name,
    decreases qs.len(),
{
    if qs.len() > 0 {
        lemma_index_of_quant_sound(qs.drop_first(), name);
    }
}

proof fn lemma_pick_sound(prefs: Seq<Seq<char>>, m: ModelEntryView, ctxs: Seq<u32>, cfg: MemoryConfig, budget: int)
    ensures
        pick_quant(prefs, m, ctxs, cfg, budget) matches Some((q, c)) ==> prefs.contains(q) && ctxs.contains(c) && (
        index_of_quant(m.quantizations, q) matches Some(i) && 0 <= i < m.quantizations.len()
            && m.quantizations[i].name@ == q && estimate(m.quantizations[i].approx_size_bytes, m.size_class@, c, cfg)
            < budget),
        pick_quant(prefs, m, ctxs, cfg, budget) is None ==> forall|q: Seq<char>, c: u32|
            #![trigger prefs.contains(q), ctxs.contains(c)]
            prefs.contains(q) && ctxs.contains(c) ==> (index_of_quant(m.quantizations, q) matches Some(i)
                ==> estimate(m.quantizations[i].approx_size_bytes, m.size_class@, c, cfg) >= budget),
    decreases prefs.len(),
{
    if prefs.len() > 0 {
        let rest = prefs.drop_first();
        lemma_pick_sound(rest, m, ctxs, cfg, budget);
        lemma_index_of_quant_sound(m.quantizations, prefs[0]);
        if let Some(i) = index_of_quant(m.quantizations, prefs[0]) {
            lemma_first_fitting_sound(m.quantizations[i].approx_size_bytes, m.size_class@, ctxs, cfg, budget);
        }
        if let Some((q, c)) = pick_quant(rest, m, ctxs, cfg, budget) {
            if pick_quant(prefs, m, ctxs, cfg, budget) == pick_quant(rest, m, ctxs, cfg, budget) {
                let j = choose|j: int| 0 <= j < rest.len() && rest[j] == q;
                assert(prefs[j + 1] == q);
            }
        }
        assert(prefs[0] == prefs[0]);
        assert forall|q: Seq<char>, c: u32|
            #![trigger prefs.contains(q), ctxs.contains(c)]
            pick_quant(prefs, m, ctxs, cfg, budget) is None && prefs.contains(q) && ctxs.contains(c) implies (index_of_quant(m.quantizations, q) matches Some(i)
                ==> estimate(m.quantizations[i].approx_size_bytes, m.size_class@, c, cfg) >= budget) by {
            let j = choose|j: int| 0 <= j < prefs.len() && prefs[j] == q;
            if j > 0 {
                assert(rest[j - 1] == q);
                assert(rest.contains(q));
            }
        }
    }
}

proof fn lemma_first_fit_sound(cands: Seq<ModelEntryView>, mode: Mode, hw: HardwareProfile, cfg: MemoryConfig)
    ensures
        first_fit(cands, mode, hw, cfg) matches Some((m, q, c)) ==> cands.contains(m) && quant_choice(m, mode, hw, cfg) == Some((q, c)),
        first_fit(cands, mode, hw, cfg) is None ==> forall|m: ModelEntryView| #[trigger] cands.contains(m) ==> quant_choice(m, mode, hw, cfg) is None,
    decreases cands.len(),
{
    if cands.len() > 0 {
        let rest = cands.drop_first();
        lemma_first_fit_sound(rest, mode, hw, cfg);
        if let Some((m, q, c)) = first_fit(rest, mode, hw, cfg) {
            let j = choose|j: int| 0 <= j < rest.len() && rest[j] == m;
            assert(cands[j + 1] == m);
        }
        assert(cands[0] == cands[0]);
        assert forall|m: ModelEntryView| #[trigger] cands.contains(m) && first_fit(cands, mode, hw, cfg) is None implies quant_choice(m, mode, hw, cfg) is None by {
            let j = choose|j: int| 0 <= j < cands.len() && cands[j] == m;
            if j > 0 {
                assert(rest[j - 1] == m);
                assert(rest.contains(m));
            }
        }
    }
}

/// A recommendation never exceeds the memory budget: the recommended model is one of the
/// registry's models for the task, the quantization is one the mode prefers and the model
/// has, the context is one of the mode's candidates, and the estimated footprint at that
/// context is strictly below the usable memory.
pub proof fn lemma_recommendation_fits_memory(
    ms: Seq<ModelEntryView>,
    hw: HardwareProfile,
    task: Task,
    mode: Mode,
    cfg: MemoryConfig,
)
    ensures
        first_fit(model_candidates(ms, task.name()), mode, hw, cfg) matches Some((m, q, c)) ==> {
            &&& ms.contains(m)
            &&& m.task@ == task.name()
            &&& mode.quantizations().contains(q)
            &&& context_candidates(mode).contains(c)
            &&& index_of_quant(m.quantizations, q) matches Some(i) && 0 <= i < m.quantizations.len()
                && m.quantizations[i].name@ == q && estimate(m.quantizations[i].approx_size_bytes, m.size_class@, c, cfg)
                < budget_of(hw, cfg)
        },
{
    let cands = model_candidates(ms, task.name());
    lemma_first_fit_sound(cands, mode, hw, cfg);
    if let Some((m, q, c)) = first_fit(cands, mode, hw, cfg) {
        lemma_candidates_are_task_models(ms, task, m);
        lemma_pick_sound(mode.quantizations(), m, context_candidates(mode), cfg, budget_of(hw, cfg));
    }
}

/// When nothing is recommended, nothing could have been: for every registry model for the
/// task, every quantization the mode prefers that the model has (its first entry of that
/// name), at every candidate context, the estimate reaches the usable memory.
pub proof fn lemma_no_recommendation_means_nothing_fits(
    ms: Seq<ModelEntryView>,
    hw: HardwareProfile,
    task: Task,
    mode: Mode,
    cfg: MemoryConfig,
    m: ModelEntryView,
    q: Seq<char>,
    c: u32,
)
    requires
        first_fit(model_candidates(ms, task.name()), mode, hw, cfg) is None,
        ms.contains(m),
        m.task@ == task.name(),
        mode.quantizations().contains(q),
        context_candidates(mode).contains(c),
    ensures
        index_of_quant(m.quantizations, q) matches Some(i) ==> estimate(
            m.quantizations[i].approx_size_bytes,
            m.size_class@,
            c,
            cfg,
        ) >= budget_of(hw, cfg),
{
    let cands = model_candidates(ms, task.name());
    lemma_first_fit_sound(cands, mode, hw, cfg);
    lemma_candidates_are_task_models(ms, task, m);
    assert(cands.contains(m));
    lemma_pick_sound(mode.quantizations(), m, context_candidates(mode), cfg, budget_of(hw, cfg));
}


/// Candidates come largest size tier first.
pub proof fn lemma_candidates_ordered_by_tier(ms: Seq<ModelEntryView>, task: Task, i: int, j: int)
    requires
        0 <= i < j < model_candidates(ms, task.name()).len(),
    ensures
        size_tier(model_candidates(ms, task.name())[i].size_class@) >= size_tier(
            model_candidates(ms, task.name())[j].size_class@,
        ),
{
    let t = task.name();
    lemma_tier_members(ms, t, 3);
    lemma_tier_members(ms, t, 2);
    lemma_tier_members(ms, t, 1);
    let a = task_models_in_tier(ms, t, 3);
    let b = task_models_in_tier(ms, t, 2);
    let c = task_models_in_tier(ms, t, 1);
    let cands = model_candidates(ms, t);
    assert(cands == a.reverse() + b.reverse() + c.reverse());
    assert forall|k: int| 0 <= k < cands.len() implies {
        let tier = size_tier(#[trigger] cands[k].size_class@);
        &&& k < a.len() ==> tier == 3
        &&& a.len() <= k < a.len() + b.len() ==> tier == 2
        &&& a.len() + b.len() <= k ==> tier == 1
    } by {
        if k < a.len() {
            assert(cands[k] == a[a.len() - 1 - k]);
            assert(a.contains(cands[k]));
        } else if k < a.len() + b.len() {
            assert(cands[k] == b[b.len() - 1 - (k - a.len())]);
            assert(b.contains(cands[k]));
        } else {
            assert(cands[k] == c[c.len() - 1 - (k - a.len() - b.len())]);
            assert(c.contains(cands[k]));
        }
    }
    assert(size_tier(cands[i].size_class@) == size_tier(cands[i].size_class@));
    assert(size_tier(cands[j].size_class@) == size_tier(cands[j].size_class@));
}

/// A larger context never needs less memory.
pub proof fn lemma_estimate_grows_with_context(w: u64, sc: Seq<char>, c1: u32, c2: u32, cfg: MemoryConfig)
    requires
        c1 <= c2,
    ensures
        estimate(w, sc, c1, cfg) <= estimate(w, sc, c2, cfg),
{
    let kv = crate::memory::kv_bytes_per_token(sc, cfg);
    assert(kv * c1 <= kv * c2) by (nonlinear_arith)
        requires
            c1 <= c2,
            kv >= 0;
}

/// Without performance cores known, between 1 and 16 threads are used.
pub proof fn lemma_threads_bounded(hw: HardwareProfile)
    ensures
        hw.performance_cores is None ==> 1 <= thread_count(hw) <= 16,
        hw.performance_cores matches Some(p) ==> thread_count(hw) == p,
{
}

/// A registry passes validation exactly when none of its entries has a problem.
pub proof fn lemma_valid_iff_every_entry_sound(ms: Seq<ModelEntry>)
    ensures
        first_problem(ms) is None <==> forall|i: int| 0 <= i < ms.len() ==> entry_problem(#[trigger] ms[i]) is None,
    decreases ms.len(),
{
    if ms.len() > 0 {
        lemma_valid_iff_every_entry_sound(ms.drop_first());
        if first_problem(ms) is None {
            assert forall|i: int| 0 <= i < ms.len() implies entry_problem(#[trigger] ms[i]) is None by {
                if i > 0 {
                    assert(ms.drop_first()[i - 1] == ms[i]);
                }
            }
        }
        if forall|i: int| 0 <= i < ms.len() ==> entry_problem(#[trigger] ms[i]) is None {
            assert(entry_problem(ms[0]) is None);
            assert forall|i: int| 0 <= i < ms.drop_first().len() implies entry_problem(#[trigger] ms.drop_first()[i]) is None by {
                assert(ms.drop_first()[i] == ms[i + 1]);
            }
        }
    }
}

proof fn lemma_first_fitting_is_first(w: u64, sc: Seq<char>, ctxs: Seq<u32>, cfg: MemoryConfig, budget: int)
    ensures
        first_fitting_context(w, sc, ctxs, cfg, budget) matches Some(c) ==> forall|j: int|
            #![trigger ctxs[j]]
            0 <= j < ctxs.len() && (forall|k: int| 0 <= k <= j ==> ctxs[k] != c) ==> estimate(w, sc, ctxs[j], cfg)
                >= budget,
    decreases ctxs.len(),
{
    if ctxs.len() > 0 {
        let rest = ctxs.drop_first();
        lemma_first_fitting_is_first(w, sc, rest, cfg, budget);
        if let Some(c) = first_fitting_context(w, sc, ctxs, cfg, budget) {
            assert forall|j: int|
                #![trigger ctxs[j]]
                0 <= j < ctxs.len() && (forall|k: int| 0 <= k <= j ==> ctxs[k] != c) implies estimate(
                w,
                sc,
                ctxs[j],
                cfg,
            ) >= budget by {
                assert(ctxs[0] != c);
                if j > 0 {
                    assert(rest[j - 1] == ctxs[j]);
                    assert forall|k: int| 0 <= k <= j - 1 implies rest[k] != c by {
                        assert(rest[k] == ctxs[k + 1]);
                    }
                }
            }
        }
    }
}

proof fn lemma_pick_is_first(prefs: Seq<Seq<char>>, m: ModelEntryView, ctxs: Seq<u32>, cfg: MemoryConfig, budget: int)
    ensures
        pick_quant(prefs, m, ctxs, cfg, budget) matches Some((q, c)) ==> {
            &&& (index_of_quant(m.quantizations, q) matches Some(i) && first_fitting_context(
                m.quantizations[i].approx_size_bytes,
                m.size_class@,
                ctxs,
                cfg,
                budget,
            ) == Some(c))
            &&& forall|b: int|
                #![trigger prefs[b]]
                0 <= b < prefs.len() && (forall|k: int| 0 <= k <= b ==> prefs[k] != q) ==> (index_of_quant(
                    m.quantizations,
                    prefs[b],
                ) matches Some(i) ==> first_fitting_context(
                    m.quantizations[i].approx_size_bytes,
                    m.size_class@,
                    ctxs,
                    cfg,
                    budget,
                ) is None)
        },
    decreases prefs.len(),
{
    if prefs.len() > 0 {
        let rest = prefs.drop_first();
        lemma_pick_is_first(rest, m, ctxs, cfg, budget);
        if let Some((q, c)) = pick_quant(prefs, m, ctxs, cfg, budget) {
            let head_fits = match index_of_quant(m.quantizations, prefs[0]) {
                Some(i) => first_fitting_context(m.quantizations[i].approx_size_bytes, m.size_class@, ctxs, cfg, budget) is Some,
                None => false,
            };
            if head_fits {
                assert(q == prefs[0]);
            } else {
                assert(pick_quant(prefs, m, ctxs, cfg, budget) == pick_quant(rest, m, ctxs, cfg, budget));
                assert forall|b: int|
                    #![trigger prefs[b]]
                    0 <= b < prefs.len() && (forall|k: int| 0 <= k <= b ==> prefs[k] != q) implies (index_of_quant(
                        m.quantizations,
                        prefs[b],
                    ) matches Some(i) ==> first_fitting_context(
                        m.quantizations[i].approx_size_bytes,
                        m.size_class@,
                        ctxs,
                        cfg,
                        budget,
                    ) is None) by {
                    if b > 0 {
                        assert(rest[b - 1] == prefs[b]);
                        assert forall|k: int| 0 <= k <= b - 1 implies rest[k] != q by {
                            assert(rest[k] == prefs[k + 1]);
                        }
                    }
                }
            }
        }
    }
}

/// The choice for a model follows the mode's order of preference: each quantization the
/// mode lists before the chosen one is missing from the model or fits at no candidate
/// context, and each candidate context before the chosen one is too large for the chosen
/// quantization. So the largest context that fits is used.
pub proof fn lemma_choice_follows_preferences(m: ModelEntryView, mode: Mode, hw: HardwareProfile, cfg: MemoryConfig)
    ensures
        quant_choice(m, mode, hw, cfg) matches Some((q, c)) ==> {
            let prefs = mode.quantizations();
            let ctxs = context_candidates(mode);
            let budget = budget_of(hw, cfg);
            &&& forall|b: int|
                #![trigger prefs[b]]
                0 <= b < prefs.len() && (forall|k: int| 0 <= k <= b ==> prefs[k] != q) ==> (index_of_quant(
                    m.quantizations,
                    prefs[b],
                ) matches Some(i) ==> forall|x: u32|
                    #![trigger ctxs.contains(x)]
                    ctxs.contains(x) ==> estimate(m.quantizations[i].approx_size_bytes, m.size_class@, x, cfg) >= budget)
            &&& index_of_quant(m.quantizations, q) matches Some(i) && forall|j: int|
                #![trigger ctxs[j]]
                0 <= j < ctxs.len() && (forall|k: int| 0 <= k <= j ==> ctxs[k] != c) ==> estimate(
                    m.quantizations[i].approx_size_bytes,
                    m.size_class@,
                    ctxs[j],
                    cfg,
                ) >= budget
        },
{
    let prefs = mode.quantizations();
    let ctxs = context_candidates(mode);
    let budget = budget_of(hw, cfg);
    lemma_pick_is_first(prefs, m, ctxs, cfg, budget);
    if let Some((q, c)) = quant_choice(m, mode, hw, cfg) {
        if let Some(i) = index_of_quant(m.quantizations, q) {
            lemma_first_fitting_is_first(m.quantizations[i].approx_size_bytes, m.size_class@, ctxs, cfg, budget);
        }
        assert forall|b: int|
            #![trigger prefs[b]]
            0 <= b < prefs.len() && (forall|k: int| 0 <= k <= b ==> prefs[k] != q) implies (index_of_quant(
                m.quantizations,
                prefs[b],
            ) matches Some(i) ==> forall|x: u32|
                #![trigger ctxs.contains(x)]
                ctxs.contains(x) ==> estimate(m.quantizations[i].approx_size_bytes, m.size_class@, x, cfg) >= budget) by {
            if let Some(i) = index_of_quant(m.quantizations, prefs[b]) {
                lemma_first_fitting_sound(m.quantizations[i].approx_size_bytes, m.size_class@, ctxs, cfg, budget);
            }
        }
    }
}

proof fn lemma_models_for_task_members(ms: Seq<ModelEntryView>, t: Seq<char>, x: ModelEntryView)
    ensures
        models_for_task(ms, t).contains(x) == (ms.contains(x) && x.task@ == t),
    decreases ms.len(),
{
    if ms.len() > 0 {
        let rest = ms.drop_first();
        lemma_models_for_task_members(rest, t, x);
        let head: Seq<ModelEntryView> = if ms[0].task@ == t { seq![ms[0]] } else { seq![] };
        lemma_concat_contains(head, models_for_task(rest, t), x);
        lemma_concat_contains(seq![ms[0]], rest, x);
        assert(ms == seq![ms[0]] + rest);
    }
}

proof fn lemma_insert_by_size_contains(sorted: Seq<ModelEntryView>, x: ModelEntryView, y: ModelEntryView)
    ensures
        insert_by_size(sorted, x).contains(y) == (sorted.contains(y) || y == x),
    decreases sorted.len(),
{
    if sorted.len() == 0 {
        assert(seq![x][0] == x);
    } else {
        let init = sorted.drop_last();
        assert(sorted == init.push(sorted.last()));
        lemma_concat_contains(init, seq![sorted.last()], y);
        assert(init.push(sorted.last()) == init + seq![sorted.last()]);
        if crate::resolve::size_rank_of(sorted.last().size_class@) <= crate::resolve::size_rank_of(x.size_class@) {
            lemma_concat_contains(sorted, seq![x], y);
            assert(sorted.push(x) == sorted + seq![x]);
        } else {
            lemma_insert_by_size_contains(init, x, y);
            let ins = insert_by_size(init, x);
            lemma_concat_contains(ins, seq![sorted.last()], y);
            assert(ins.push(sorted.last()) == ins + seq![sorted.last()]);
        }
    }
}

proof fn lemma_sort_by_size_contains(ms: Seq<ModelEntryView>, y: ModelEntryView)
    ensures
        sort_by_size(ms).contains(y) == ms.contains(y),
    decreases ms.len(),
{
    if ms.len() > 0 {
        let init = ms.drop_last();
        lemma_sort_by_size_contains(init, y);
        lemma_insert_by_size_contains(sort_by_size(init), ms.last(), y);
        assert(ms == init.push(ms.last()));
        lemma_concat_contains(init, seq![ms.last()], y);
        assert(init.push(ms.last()) == init + seq![ms.last()]);
    }
}

/// A model chosen among the local models is one of them and fits: the quantization is one
/// the mode prefers and the model has, the context one of the mode's candidates, and the
/// estimate below the usable memory. It is for the requested task unless it was chosen as
/// a fallback, and a fallback is chosen only when no local model for the task fits.
pub proof fn lemma_local_choice_is_local_and_fits(
    locals: Seq<ModelEntryView>,
    task: Task,
    mode: Mode,
    hw: HardwareProfile,
    cfg: MemoryConfig,
)
    ensures
        local_choice(locals, task, mode, hw, cfg) matches Some((m, q, c, fallback)) ==> {
            &&& locals.contains(m)
            &&& !fallback ==> m.task@ == task.name()
            &&& fallback ==> forall|x: ModelEntryView| #[trigger] locals.contains(x) && x.task@ == task.name()
                ==> quant_choice(x, mode, hw, cfg) is None
            &&& mode.quantizations().contains(q)
            &&& context_candidates(mode).contains(c)
            &&& index_of_quant(m.quantizations, q) matches Some(i) && 0 <= i < m.quantizations.len()
                && m.quantizations[i].name@ == q && estimate(m.quantizations[i].approx_size_bytes, m.size_class@, c, cfg)
                < budget_of(hw, cfg)
        },
{
    let t = task.name();
    let for_task = models_for_task(locals, t);
    let cands = model_candidates(for_task, t);
    lemma_first_fit_sound(cands, mode, hw, cfg);
    lemma_first_fit_sound(fallback_order(locals), mode, hw, cfg);
    if let Some((m, q, c, fallback)) = local_choice(locals, task, mode, hw, cfg) {
        if !fallback {
            lemma_candidates_are_task_models(for_task, task, m);
            lemma_models_for_task_members(locals, t, m);
        } else {
            lemma_reverse_contains(sort_by_size(locals), m);
            lemma_sort_by_size_contains(locals, m);
            assert forall|x: ModelEntryView| #[trigger] locals.contains(x) && x.task@ == t
                implies quant_choice(x, mode, hw, cfg) is None by {
                lemma_models_for_task_members(locals, t, x);
                lemma_candidates_are_task_models(for_task, task, x);
                assert(cands.contains(x));
            }
        }
        lemma_pick_sound(mode.quantizations(), m, context_candidates(mode), cfg, budget_of(hw, cfg));
    }
}

/// The memory estimate is the weights, plus the KV cache for the context, plus the fixed
/// overhead. The KV cache costs the 14B per-token rate exactly for size classes that
/// mention "14"; every other class (such as "8b" or "7b") pays the 7B rate. The cache
/// size saturates at `u64::MAX`.
pub proof fn lemma_estimate_charges_rate_by_size_class(w: u64, sc: Seq<char>, ctx: u32, cfg: MemoryConfig)
    ensures
        contains(sc, "14"@) ==> estimate(w, sc, ctx, cfg) == w + (if cfg.kv_bytes_per_token_14b * ctx
            > u64::MAX { u64::MAX as int } else { cfg.kv_bytes_per_token_14b * ctx }) + cfg.overhead_bytes,
        !contains(sc, "14"@) ==> estimate(w, sc, ctx, cfg) == w + (if cfg.kv_bytes_per_token_7b * ctx
            > u64::MAX { u64::MAX as int } else { cfg.kv_bytes_per_token_7b * ctx }) + cfg.overhead_bytes,
{
}

/// Candidates come larger size classes first: a model whose size class mentions "14" is
/// never preceded by one whose class does not, and a model whose class mentions "8" is
/// never preceded by one whose class mentions neither "14" nor "8".
pub proof fn lemma_candidates_larger_classes_first(ms: Seq<ModelEntryView>, task: Task, i: int, j: int)
    requires
        0 <= i < j < model_candidates(ms, task.name()).len(),
    ensures
        contains(model_candidates(ms, task.name())[j].size_class@, "14"@) ==> contains(
            model_candidates(ms, task.name())[i].size_class@,
            "14"@,
        ),
        contains(model_candidates(ms, task.name())[j].size_class@, "8"@) ==> (contains(
            model_candidates(ms, task.name())[i].size_class@,
            "14"@,
        ) || contains(model_candidates(ms, task.name())[i].size_class@, "8"@)),
{
    lemma_candidates_ordered_by_tier(ms, task, i, j);
}

/// Whether a sequence of models is sorted by size rank, smallest first.
spec fn ascending_by_rank(s: Seq<ModelEntryView>) -> bool {
    forall|i: int, j: int| 0 <= i < j < s.len() ==> size_rank_of(#[trigger] s[i].size_class@) <= size_rank_of(
        #[trigger] s[j].size_class@,
    )
}

proof fn lemma_insert_by_size_sorted(sorted: Seq<ModelEntryView>, x: ModelEntryView)
    requires
        ascending_by_rank(sorted),
    ensures
        ascending_by_rank(insert_by_size(sorted, x)),
    decreases sorted.len(),
{
    if sorted.len() > 0 {
        let init = sorted.drop_last();
        let last = sorted.last();
        let r = insert_by_size(sorted, x);
        if size_rank_of(last.size_class@) <= size_rank_of(x.size_class@) {
            assert(r == sorted.push(x));
            assert forall|i: int, j: int| 0 <= i < j < r.len() implies size_rank_of(#[trigger] r[i].size_class@)
                <= size_rank_of(#[trigger] r[j].size_class@) by {
                if j == sorted.len() {
                    if i < sorted.len() - 1 {
                        assert(size_rank_of(sorted[i].size_class@) <= size_rank_of(sorted[sorted.len() - 1].size_class@));
                    }
                } else {
                    assert(r[i] == sorted[i] && r[j] == sorted[j]);
                }
            }
        } else {
            assert(ascending_by_rank(init)) by {
                assert forall|i: int, j: int| 0 <= i < j < init.len() implies size_rank_of(
                    #[trigger] init[i].size_class@,
                ) <= size_rank_of(#[trigger] init[j].size_class@) by {
                    assert(init[i] == sorted[i] && init[j] == sorted[j]);
                }
            }
            lemma_insert_by_size_sorted(init, x);
            let ins = insert_by_size(init, x);
            assert(r == ins.push(last));
            assert forall|i: int, j: int| 0 <= i < j < r.len() implies size_rank_of(#[trigger] r[i].size_class@)
                <= size_rank_of(#[trigger] r[j].size_class@) by {
                if j == ins.len() {
                    let y = ins[i];
                    assert(ins.contains(y));
                    lemma_insert_by_size_contains(init, x, y);
                    if y != x {
                        let k = choose|k: int| 0 <= k < init.len() && init[k] == y;
                        assert(init[k] == sorted[k]);
                        assert(size_rank_of(sorted[k].size_class@) <= size_rank_of(sorted[sorted.len() - 1].size_class@));
                    }
                    assert(r[j] == last);
                    assert(r[i] == y);
                } else {
                    assert(r[i] == ins[i] && r[j] == ins[j]);
                }
            }
        }
    }
}

proof fn lemma_sort_by_size_sorted(ms: Seq<ModelEntryView>)
    ensures
        ascending_by_rank(sort_by_size(ms)),
    decreases ms.len(),
{
    if ms.len() > 0 {
        lemma_sort_by_size_sorted(ms.drop_last());
        lemma_insert_by_size_sorted(sort_by_size(ms.drop_last()), ms.last());
    }
}

/// The local models are tried largest first: along the fallback order the size rank
/// ("7b" counts 700, "1.5b" counts 105) never increases, and the order holds exactly the
/// local models.
pub proof fn lemma_fallback_order_largest_first(ms: Seq<ModelEntryView>, i: int, j: int, y: ModelEntryView)
    requires
        0 <= i < j < fallback_order(ms).len(),
    ensures
        size_rank_of(fallback_order(ms)[i].size_class@) >= size_rank_of(fallback_order(ms)[j].size_class@),
        fallback_order(ms).contains(y) == ms.contains(y),
{
    let s = sort_by_size(ms);
    lemma_sort_by_size_sorted(ms);
    let n = s.len();
    assert(fallback_order(ms)[i] == s[n - 1 - i]);
    assert(fallback_order(ms)[j] == s[n - 1 - j]);
    assert(size_rank_of(s[n - 1 - j].size_class@) <= size_rank_of(s[n - 1 - i].size_class@));
    lemma_reverse_contains(s, y);
    lemma_sort_by_size_contains(ms, y);
}

proof fn lemma_parse_digits_push(s: Seq<char>, c: char, acc: int, max: int)
    ensures
        parse_digits(s.push(c), acc, max) == match parse_digits(s, acc, max) {
            Ok(v) => match digit_value(c) {
                None => Err(IntErrorKind::InvalidDigit),
                Some(d) => if v * 10 + d > max {
                    Err(IntErrorKind::PosOverflow)
                } else {
                    Ok(v * 10 + d)
                },
            },
            Err(e) => Err(e),
        },
    decreases s.len(),
{
    if s.len() == 0 {
        assert(s.push(c).drop_first() =~= Seq::<char>::empty());
        assert(s.push(c)[0] == c);
        if let Some(d) = digit_value(c) {
            assert(parse_digits(Seq::<char>::empty(), acc * 10 + d, max) == Ok::<int, IntErrorKind>(acc * 10 + d));
        }
    } else {
        assert(s.push(c)[0] == s[0]);
        assert(s.push(c).drop_first() =~= s.drop_first().push(c));
        match digit_value(s[0]) {
            Some(d) => {
                if acc * 10 + d <= max {
                    lemma_parse_digits_push(s.drop_first(), c, acc * 10 + d, max);
                }
            },
            None => {},
        }
    }
}

proof fn lemma_digit_round_trip(d: int)
    requires
        0 <= d < 10,
    ensures
        digit_value(digit_char(d)) == Some(d),
{
}

proof fn lemma_decimal_digits(n: nat)
    ensures
        decimal(n).len() >= 1,
        forall|k: int| 0 <= k < decimal(n).len() ==> digit_value(#[trigger] decimal(n)[k]) is Some,
    decreases n,
{
    if n >= 10 {
        lemma_decimal_digits(n / 10);
        lemma_digit_round_trip((n % 10) as int);
        assert forall|k: int| 0 <= k < decimal(n).len() implies digit_value(#[trigger] decimal(n)[k]) is Some by {
            if k < decimal(n / 10).len() {
                assert(decimal(n)[k] == decimal(n / 10)[k]);
            }
        }
    } else {
        lemma_digit_round_trip(n as int);
    }
}

proof fn lemma_decimal_parses(n: nat, max: int)
    requires
        n <= max,
    ensures
        parse_digits(decimal(n), 0, max) == Ok::<int, IntErrorKind>(n as int),
    decreases n,
{
    if n < 10 {
        lemma_digit_round_trip(n as int);
        assert(decimal(n).drop_first() =~= Seq::<char>::empty());
        assert(parse_digits(Seq::<char>::empty(), n as int, max) == Ok::<int, IntErrorKind>(n as int));
    } else {
        lemma_decimal_parses(n / 10, max);
        lemma_digit_round_trip((n % 10) as int);
        lemma_parse_digits_push(decimal(n / 10), digit_char((n % 10) as int), 0, max);
        assert(n == (n / 10) * 10 + n % 10) by (nonlinear_arith);
    }
}

/// The decimal notation of a number, read back, is that number.
pub proof fn lemma_decimal_round_trip(n: nat, max: int)
    requires
        n <= max,
    ensures
        parse_uint(decimal(n), max) == Ok::<int, IntErrorKind>(n as int),
{
    lemma_decimal_digits(n);
    lemma_decimal_parses(n, max);
    assert(digit_value(decimal(n)[0]) is Some);
}

/// A whole number of milliseconds or seconds, written as `parse_duration` reads it, reads
/// back as that duration.
pub proof fn lemma_duration_round_trip(n: u64)
    ensures
        duration_result(decimal(n as nat) + "ms"@) == Ok::<core::time::Duration, Seq<char>>(millis_duration(n)),
        duration_result(decimal(n as nat) + "s"@) == Ok::<core::time::Duration, Seq<char>>(secs_duration(n)),
{
    reveal_strlit("ms");
    reveal_strlit("s");
    let d = decimal(n as nat);
    lemma_decimal_round_trip(n as nat, u64::MAX as int);
    lemma_decimal_digits(n as nat);
    let x = d + "ms"@;
    assert(x.subrange(x.len() - 2, x.len() as int) =~= "ms"@);
    assert(x.subrange(0, x.len() - 2) =~= d);
    assert(strip_suffix(x, "ms"@) == Some(d));
    let y = d + "s"@;
    assert(y[y.len() - 2] == d[d.len() - 1]);
    assert(digit_value(d[d.len() - 1]) is Some);
    assert(y.subrange(y.len() - 2, y.len() as int)[0] != "ms"@[0]);
    assert(strip_suffix(y, "ms"@) is None);
    assert(y.subrange(y.len() - 1, y.len() as int) =~= "s"@);
    assert(y.subrange(0, y.len() - 1) =~= d);
    assert(strip_suffix(y, "s"@) == Some(d));
}

proof fn lemma_utf8_len_concat(a: Seq<char>, b: Seq<char>)
    ensures
        utf8_len(a + b) == utf8_len(a) + utf8_len(b),
    decreases b.len(),
{
    if b.len() > 0 {
        lemma_utf8_len_concat(a, b.drop_last());
        assert((a + b).drop_last() =~= a + b.drop_last());
        assert((a + b).last() == b.last());
    } else {
        assert(a + b =~= a);
    }
}

/// A shortened error body takes at most 243 bytes: 240 and the ellipsis.
pub proof fn lemma_error_body_bounded(s: Seq<char>)
    requires
        utf8_len(cleaned_body(s)) <= max_error_body() || is_boundary(cleaned_body(s), max_error_body()),
    ensures
        utf8_len(truncated_body(s)) <= max_error_body() + 3,
{
    let c = cleaned_body(s);
    if utf8_len(c) > max_error_body() {
        let k = chars_before(c, max_error_body());
        reveal_strlit("...");
        lemma_utf8_len_concat(c.take(k), "..."@);
        assert("..."@.drop_last().drop_last().drop_last() =~= Seq::<char>::empty());
        reveal_with_fuel(utf8_len, 4);
        assert(utf8_len("..."@) == 3);
    }
}

} // verus!
