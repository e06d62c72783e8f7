use vstd::prelude::*;

use crate::cli::Task;
use crate::memory::{estimate, estimate_total_bytes, usable, usable_memory, MemoryConfig};
use crate::profiler::HardwareProfile;
use crate::profiles::Mode;
use crate::registry::{entries_view, ModelEntry, ModelEntryView, QuantizationInfo, Registry};
use crate::text::{contains, decimal, push_decimal, str_contains, str_eq};
use crate::units::{gib_text, push_gib};

verus! {

/// How large a size class is: 3 for classes mentioning "14", 2 for "8", 1 otherwise.
pub open spec fn size_tier(size_class: Seq<char>) -> int {
    if contains(size_class, "14"@) {
        3
    } else if contains(size_class, "8"@) {
        2
    } else {
        1
    }
}

/// The models for `task` in size tier `tier`, in registry order.
pub open spec fn task_models_in_tier(ms: Seq<ModelEntryView>, task: Seq<char>, tier: int) -> Seq<ModelEntryView>
    decreases ms.len(),
{
    if ms.len() == 0 {
        seq![]
    } else {
        (if ms[0].task@ == task && size_tier(ms[0].size_class@) == tier {
            seq![ms[0]]
        } else {
            seq![]
        }) + task_models_in_tier(ms.drop_first(), task, tier)
    }
}

/// The candidate models for `task`: largest tier first; inside a tier, the later registry
/// entry first (a stable sort by tier, then reversed).
pub open spec fn model_candidates(ms: Seq<ModelEntryView>, task: Seq<char>) -> Seq<ModelEntryView> {
    task_models_in_tier(ms, task, 3).reverse() + task_models_in_tier(ms, task, 2).reverse()
        + task_models_in_tier(ms, task, 1).reverse()
}

/// The entries a sequence of references points at, as values.
pub open spec fn deref_all(v: Seq<&ModelEntry>) -> Seq<ModelEntryView> {
    v.map_values(|m: &ModelEntry| m@)
}

proof fn lemma_reverse_cons(x: Seq<ModelEntryView>, rest: Seq<ModelEntryView>)
    ensures
        (x + rest).reverse() == rest.reverse() + x.reverse(),
{
    assert((x + rest).reverse() =~= rest.reverse() + x.reverse());
}

fn push_ref<'a>(v: &mut Vec<&'a ModelEntry>, m: &'a ModelEntry)
    ensures
        deref_all(final(v)@) == deref_all(old(v)@).push(m@),
{
    v.push(m);
    assert(deref_all(v@) =~= deref_all(old(v)@).push(m@));
}

fn append_refs<'a>(v: &mut Vec<&'a ModelEntry>, w: &Vec<&'a ModelEntry>)
    ensures
        deref_all(final(v)@) == deref_all(old(v)@) + deref_all(w@),
{
    let mut i: usize = 0;
    while i < w.len()
        invariant
            i <= w@.len(),
            deref_all(v@) == deref_all(old(v)@) + deref_all(w@.take(i as int)),
        decreases w.len() - i,
    {
        push_ref(v, w[i]);
        assert(deref_all(w@.take(i + 1)) =~= deref_all(w@.take(i as int)).push(w@[i as int]@));
        i += 1;
    }
    assert(w@.take(i as int) == w@);
}

/// The size tier of a model's size class.
fn tier_of(size_class: &str) -> (r: u32)
    ensures
        r == size_tier(size_class@),
{
    if str_contains(size_class, "14") {
        3
    } else if str_contains(size_class, "8") {
        2
    } else {
        1
    }
}

/// The registry's models for `task`, best candidates first.
pub fn choose_model<'a>(registry: &'a Registry, task: Task) -> (r: Vec<&'a ModelEntry>)
    ensures
        deref_all(r@) == model_candidates(entries_view(registry.models@), task.name()),
{
    let task_name = task.as_str();
    let ms = &registry.models;
    let ghost es = entries_view(ms@);
    let mut tier3: Vec<&ModelEntry> = Vec::new();
    let mut tier2: Vec<&ModelEntry> = Vec::new();
    let mut tier1: Vec<&ModelEntry> = Vec::new();
    let mut i = ms.len();
    assert(es.skip(i as int) == Seq::<ModelEntryView>::empty());
    while i > 0
        invariant
            i <= ms@.len(),
            es == entries_view(ms@),
            task_name@ == task.name(),
            deref_all(tier3@) == task_models_in_tier(es.skip(i as int), task.name(), 3).reverse(),
            deref_all(tier2@) == task_models_in_tier(es.skip(i as int), task.name(), 2).reverse(),
            deref_all(tier1@) == task_models_in_tier(es.skip(i as int), task.name(), 1).reverse(),
        decreases i,
    {
        let m = &ms[i - 1];
        let ghost rest = es.skip(i as int);
        assert(es.skip(i - 1).drop_first() == rest);
        assert(es.skip(i - 1)[0] == m@);
        proof {
            lemma_reverse_cons(
                if m.task@ == task.name() && size_tier(m.size_class@) == 3 { seq![m@] } else { seq![] },
                task_models_in_tier(rest, task.name(), 3),
            );
            lemma_reverse_cons(
                if m.task@ == task.name() && size_tier(m.size_class@) == 2 { seq![m@] } else { seq![] },
                task_models_in_tier(rest, task.name(), 2),
            );
            lemma_reverse_cons(
                if m.task@ == task.name() && size_tier(m.size_class@) == 1 { seq![m@] } else { seq![] },
                task_models_in_tier(rest, task.name(), 1),
            );
        }
        if str_eq(m.task.as_str(), task_name) {
            let tier = tier_of(m.size_class.as_str());
            if tier == 3 {
                push_ref(&mut tier3, m);
            } else if tier == 2 {
                push_ref(&mut tier2, m);
            } else {
                push_ref(&mut tier1, m);
            }
        }
        assert(seq![m@].reverse() =~= seq![m@]);
        assert(Seq::<ModelEntryView>::empty().reverse() =~= Seq::<ModelEntryView>::empty());
        i -= 1;
    }
    assert(es.skip(0) == es);
    let mut r = tier3;
    append_refs(&mut r, &tier2);
    append_refs(&mut r, &tier1);
    r
}


/// The index of the first quantization named `name`.
pub open spec fn index_of_quant(qs: Seq<QuantizationInfo>, name: Seq<char>) -> Option<int>
    decreases qs.len(),
{
    if qs.len() == 0 {
        None
    } else if qs[0].name@ == name {
        Some(0)
    } else {
        match index_of_quant(qs.drop_first(), name) {
            Some(i) => Some(i + 1),
            None => None,
        }
    }
}

/// The context sizes tried: the mode's targets, then 1024 and 512 where they are missing.
pub open spec fn context_candidates(mode: Mode) -> Seq<u32> {
    let c = mode.contexts();
    let c1 = if c.contains(1024u32) { c } else { c.push(1024u32) };
    if c1.contains(512u32) { c1 } else { c1.push(512u32) }
}

/// The first context whose estimate stays strictly under the budget.
pub open spec fn first_fitting_context(
    weights: u64,
    size_class: Seq<char>,
    ctxs: Seq<u32>,
    cfg: MemoryConfig,
    budget: int,
) -> Option<u32>
    decreases ctxs.len(),
{
    if ctxs.len() == 0 {
        None
    } else if estimate(weights, size_class, ctxs[0], cfg) < budget {
        Some(ctxs[0])
    } else {
        first_fitting_context(weights, size_class, ctxs.drop_first(), cfg, budget)
    }
}

/// Every estimate computed while scanning the contexts fits in a `u64`.
pub open spec fn context_scan_fits(
    weights: u64,
    size_class: Seq<char>,
    ctxs: Seq<u32>,
    cfg: MemoryConfig,
    budget: int,
) -> bool
    decreases ctxs.len(),
{
    ctxs.len() == 0 || (estimate(weights, size_class, ctxs[0], cfg) <= u64::MAX && (
    estimate(weights, size_class, ctxs[0], cfg) < budget || context_scan_fits(
        weights,
        size_class,
        ctxs.drop_first(),
        cfg,
        budget,
    )))
}

/// The first preferred quantization the model has that fits at some candidate context,
/// with the first context at which it fits.
pub open spec fn pick_quant(
    prefs: Seq<Seq<char>>,
    m: ModelEntryView,
    ctxs: Seq<u32>,
    cfg: MemoryConfig,
    budget: int,
) -> Option<(Seq<char>, u32)>
    decreases prefs.len(),
{
    if prefs.len() == 0 {
        None
    } else {
        match index_of_quant(m.quantizations, prefs[0]) {
            Some(i) => match first_fitting_context(
                m.quantizations[i].approx_size_bytes,
                m.size_class@,
                ctxs,
                cfg,
                budget,
            ) {
                Some(c) => Some((prefs[0], c)),
                None => pick_quant(prefs.drop_first(), m, ctxs, cfg, budget),
            },
            None => pick_quant(prefs.drop_first(), m, ctxs, cfg, budget),
        }
    }
}

/// Every estimate computed while picking fits in a `u64`.
pub open spec fn pick_fits(
    prefs: Seq<Seq<char>>,
    m: ModelEntryView,
    ctxs: Seq<u32>,
    cfg: MemoryConfig,
    budget: int,
) -> bool
    decreases prefs.len(),
{
    prefs.len() == 0 || match index_of_quant(m.quantizations, prefs[0]) {
        Some(i) => context_scan_fits(
            m.quantizations[i].approx_size_bytes,
            m.size_class@,
            ctxs,
            cfg,
            budget,
        ) && (first_fitting_context(
            m.quantizations[i].approx_size_bytes,
            m.size_class@,
            ctxs,
            cfg,
            budget,
        ) is Some || pick_fits(prefs.drop_first(), m, ctxs, cfg, budget)),
        None => pick_fits(prefs.drop_first(), m, ctxs, cfg, budget),
    }
}

/// The memory budget a hardware profile leaves.
pub open spec fn budget_of(hw: HardwareProfile, cfg: MemoryConfig) -> int {
    usable(hw.total_mem_bytes, hw.available_mem_bytes, cfg)
}

/// What `choose_quant_and_ctx` picks for a model: a quantization name and a context.
pub open spec fn quant_choice(m: ModelEntryView, mode: Mode, hw: HardwareProfile, cfg: MemoryConfig) -> Option<(Seq<char>, u32)> {
    pick_quant(mode.quantizations(), m, context_candidates(mode), cfg, budget_of(hw, cfg))
}

/// No estimate computed by `choose_quant_and_ctx` for this model overflows.
pub open spec fn quant_choice_fits(m: ModelEntryView, mode: Mode, hw: HardwareProfile, cfg: MemoryConfig) -> bool {
    pick_fits(mode.quantizations(), m, context_candidates(mode), cfg, budget_of(hw, cfg))
}

/// The first reason given: the memory budget in GiB.
pub open spec fn budget_reason(budget: nat) -> Seq<char> {
    "usable memory budget: "@ + gib_text(budget) + " GiB"@
}

/// The reason given for the pick.
pub open spec fn selected_reason(quant: Seq<char>, ctx: u32) -> Seq<char> {
    "selected quant "@ + quant + " at context "@ + decimal(ctx as nat)
}

/// The texts of a list of strings.
pub open spec fn texts(v: Seq<String>) -> Seq<Seq<char>> {
    v.map_values(|s: String| s@)
}

fn contains_u32(v: &Vec<u32>, x: u32) -> (r: bool)
    ensures
        r == v@.contains(x),
{
    let mut i: usize = 0;
    while i < v.len()
        invariant
            i <= v@.len(),
            forall|j: int| 0 <= j < i ==> v@[j] != x,
        decreases v.len() - i,
    {
        if v[i] == x {
            assert(v@[i as int] == x);
            return true;
        }
        i += 1;
    }
    false
}

/// The index of the first quantization named `name`.
fn find_quant(qs: &Vec<QuantizationInfo>, name: &str) -> (r: Option<usize>)
    ensures
        r matches Some(k) ==> index_of_quant(qs@, name@) == Some(k as int) && k < qs@.len(),
        r is None ==> index_of_quant(qs@, name@) is None,
{
    let mut i: usize = 0;
    assert(qs@.skip(0) == qs@);
    while i < qs.len()
        invariant
            i <= qs@.len(),
            match index_of_quant(qs@, name@) {
                Some(k) => match index_of_quant(qs@.skip(i as int), name@) {
                    Some(j) => k == j + i,
                    None => false,
                },
                None => index_of_quant(qs@.skip(i as int), name@) is None,
            },
        decreases qs.len() - i,
    {
        assert(qs@.skip(i as int).drop_first() == qs@.skip(i + 1));
        assert(qs@.skip(i as int)[0] == qs@[i as int]);
        if str_eq(qs[i].name.as_str(), name) {
            return Some(i);
        }
        i += 1;
    }
    None
}

/// For one model, the first preferred quantization (by mode) that fits under the memory
/// budget at the first candidate context that fits, with the reasons for the choice.
pub fn choose_quant_and_ctx(
    model: &ModelEntry,
    mode: Mode,
    hw: &HardwareProfile,
    cfg: &MemoryConfig,
) -> (r: Option<(String, u32, Vec<String>)>)
    requires
        quant_choice_fits(model@, mode, *hw, *cfg),
    ensures
        match quant_choice(model@, mode, *hw, *cfg) {
            None => r is None,
            Some((q, c)) => r matches Some(t) && t.0@ == q && t.1 == c && texts(t.2@) == seq![
                budget_reason(budget_of(*hw, *cfg) as nat),
                selected_reason(q, c),
            ],
        },
{
    let budget = usable_memory(hw.total_mem_bytes, hw.available_mem_bytes, cfg);
    let mut first_reason = String::from_str("usable memory budget: ");
    push_gib(&mut first_reason, budget);
    first_reason.append(" GiB");
    let mut contexts = mode.context_targets();
    if !contains_u32(&contexts, 1024) {
        contexts.push(1024);
    }
    if !contains_u32(&contexts, 512) {
        contexts.push(512);
    }
    let ghost ctxs = context_candidates(mode);
    assert(contexts@ == ctxs);
    let prefs = mode.quantization_preferences();
    let ghost pv = mode.quantizations();
    assert(prefs@.map_values(|q: &'static str| q@) == pv);
    let mut p: usize = 0;
    assert(pv.skip(0) == pv);
    while p < prefs.len()
        invariant
            p <= prefs@.len(),
            prefs@.len() == pv.len(),
            forall|j: int| 0 <= j < pv.len() ==> prefs@[j]@ == #[trigger] pv[j],
            contexts@ == ctxs,
            ctxs == context_candidates(mode),
            pv == mode.quantizations(),
            budget == budget_of(*hw, *cfg),
            first_reason@ == budget_reason(budget as nat),
            pick_quant(pv, model@, ctxs, *cfg, budget as int) == pick_quant(pv.skip(p as int), model@, ctxs, *cfg, budget as int),
            pick_fits(pv.skip(p as int), model@, ctxs, *cfg, budget as int),
        decreases prefs.len() - p,
    {
        let quant = prefs[p];
        let ghost rest = pv.skip(p as int);
        assert(rest.drop_first() == pv.skip(p + 1));
        assert(rest[0] == pv[p as int]);
        assert(quant@ == pv[p as int]);
        match find_quant(&model.quantizations, quant) {
            Some(qi) => {
                let weights = model.quantizations[qi].approx_size_bytes;
                let ghost fit = first_fitting_context(weights, model.size_class@, ctxs, *cfg, budget as int);
                assert(quant@ == rest[0]);
                assert(index_of_quant(model@.quantizations, quant@) == Some(qi as int));
                assert(pick_quant(rest, model@, ctxs, *cfg, budget as int) == match fit {
                    Some(c) => Some((rest[0], c)),
                    None => pick_quant(rest.drop_first(), model@, ctxs, *cfg, budget as int),
                });
                assert(context_scan_fits(weights, model.size_class@, ctxs, *cfg, budget as int));
                assert(fit is None ==> pick_fits(rest.drop_first(), model@, ctxs, *cfg, budget as int));
                let mut k: usize = 0;
                assert(ctxs.skip(0) == ctxs);
                while k < contexts.len()
                    invariant
                        k <= contexts@.len(),
                        contexts@ == ctxs,
                        ctxs == context_candidates(mode),
                        pv == mode.quantizations(),
                        rest.len() > 0,
                        quant@ == rest[0],
                        first_reason@ == budget_reason(budget as nat),
                        budget == budget_of(*hw, *cfg),
                        pick_quant(pv, model@, ctxs, *cfg, budget as int) == match fit {
                            Some(c) => Some((rest[0], c)),
                            None => pick_quant(rest.drop_first(), model@, ctxs, *cfg, budget as int),
                        },
                        fit == first_fitting_context(weights, model.size_class@, ctxs, *cfg, budget as int),
                        first_fitting_context(weights, model.size_class@, ctxs, *cfg, budget as int)
                            == first_fitting_context(weights, model.size_class@, ctxs.skip(k as int), *cfg, budget as int),
                        context_scan_fits(weights, model.size_class@, ctxs.skip(k as int), *cfg, budget as int),
                    decreases contexts.len() - k,
                {
                    let ctx = contexts[k];
                    assert(ctxs.skip(k as int).drop_first() == ctxs.skip(k + 1));
                    assert(ctxs.skip(k as int)[0] == ctxs[k as int]);
                    let est = estimate_total_bytes(weights, model.size_class.as_str(), ctx, cfg);
                    if est < budget {
                        assert(first_fitting_context(weights, model.size_class@, ctxs.skip(k as int), *cfg, budget as int) == Some(ctx));
                        assert(fit == Some(ctx));
                        assert(quant_choice(model@, mode, *hw, *cfg) == Some((quant@, ctx)));
                        let mut second = String::from_str("selected quant ");
                        second.append(quant);
                        second.append(" at context ");
                        push_decimal(&mut second, ctx as u64);
                        let mut reasons: Vec<String> = Vec::new();
                        reasons.push(first_reason);
                        reasons.push(second);
                        assert(texts(reasons@) =~= seq![budget_reason(budget as nat), selected_reason(quant@, ctx)]);
                        return Some((String::from_str(quant), ctx, reasons));
                    }
                    k += 1;
                }
                assert(ctxs.skip(k as int).len() == 0);
                assert(fit is None);
            },
            None => {
                assert(index_of_quant(model@.quantizations, rest[0]) is None);
            },
        }
        p += 1;
    }
    assert(pv.skip(p as int).len() == 0);
    None
}


/// The estimate, or `None` when it does not fit in a `u64`.
fn checked_estimate(weights: u64, size_class: &str, ctx: u32, cfg: &MemoryConfig) -> (r: Option<u64>)
    ensures
        r matches Some(v) ==> v == estimate(weights, size_class@, ctx, *cfg),
        r is None ==> estimate(weights, size_class@, ctx, *cfg) > u64::MAX,
{
    let kv_per_token = if str_contains(size_class, "14") {
        cfg.kv_bytes_per_token_14b
    } else {
        cfg.kv_bytes_per_token_7b
    };
    let kv = match kv_per_token.checked_mul(ctx as u64) {
        Some(v) => v,
        None => u64::MAX,
    };
    match weights.checked_add(kv) {
        None => None,
        Some(a) => a.checked_add(cfg.overhead_bytes),
    }
}

/// Whether no estimate computed by `choose_quant_and_ctx` for this model overflows.
pub fn quant_choice_fits_exec(model: &ModelEntry, mode: Mode, hw: &HardwareProfile, cfg: &MemoryConfig) -> (r: bool)
    ensures
        r == quant_choice_fits(model@, mode, *hw, *cfg),
{
    let budget = usable_memory(hw.total_mem_bytes, hw.available_mem_bytes, cfg);
    let mut contexts = mode.context_targets();
    if !contains_u32(&contexts, 1024) {
        contexts.push(1024);
    }
    if !contains_u32(&contexts, 512) {
        contexts.push(512);
    }
    let ghost ctxs = context_candidates(mode);
    assert(contexts@ == ctxs);
    let prefs = mode.quantization_preferences();
    let ghost pv = mode.quantizations();
    let mut p: usize = 0;
    assert(pv.skip(0) == pv);
    while p < prefs.len()
        invariant
            p <= prefs@.len(),
            prefs@.len() == pv.len(),
            forall|j: int| 0 <= j < pv.len() ==> prefs@[j]@ == #[trigger] pv[j],
            contexts@ == ctxs,
            ctxs == context_candidates(mode),
            pv == mode.quantizations(),
            budget == budget_of(*hw, *cfg),
            pick_fits(pv, model@, ctxs, *cfg, budget as int) == pick_fits(pv.skip(p as int), model@, ctxs, *cfg, budget as int),
        decreases prefs.len() - p,
    {
        let quant = prefs[p];
        let ghost rest = pv.skip(p as int);
        assert(rest.drop_first() == pv.skip(p + 1));
        assert(rest[0] == pv[p as int]);
        assert(quant@ == rest[0]);
        match find_quant(&model.quantizations, quant) {
            Some(qi) => {
                let weights = model.quantizations[qi].approx_size_bytes;
                let ghost sc = model.size_class@;
                assert(index_of_quant(model@.quantizations, quant@) == Some(qi as int));
                assert(pick_fits(rest, model@, ctxs, *cfg, budget as int) == (context_scan_fits(weights, sc, ctxs, *cfg, budget as int)
                    && (first_fitting_context(weights, sc, ctxs, *cfg, budget as int) is Some
                    || pick_fits(rest.drop_first(), model@, ctxs, *cfg, budget as int))));
                let mut k: usize = 0;
                assert(ctxs.skip(0) == ctxs);
                while k < contexts.len()
                    invariant
                        k <= contexts@.len(),
                        contexts@ == ctxs,
                        sc == model.size_class@,
                        budget == budget_of(*hw, *cfg),
                        ctxs == context_candidates(mode),
                        pv == mode.quantizations(),
                        rest.len() > 0,
                        pick_fits(pv, model@, ctxs, *cfg, budget as int) == pick_fits(rest, model@, ctxs, *cfg, budget as int),
                        pick_fits(rest, model@, ctxs, *cfg, budget as int) == (context_scan_fits(weights, sc, ctxs, *cfg, budget as int)
                            && (first_fitting_context(weights, sc, ctxs, *cfg, budget as int) is Some
                            || pick_fits(rest.drop_first(), model@, ctxs, *cfg, budget as int))),
                        context_scan_fits(weights, sc, ctxs, *cfg, budget as int) == context_scan_fits(weights, sc, ctxs.skip(k as int), *cfg, budget as int),
                        first_fitting_context(weights, sc, ctxs, *cfg, budget as int) == first_fitting_context(weights, sc, ctxs.skip(k as int), *cfg, budget as int),
                    decreases contexts.len() - k,
                {
                    let ctx = contexts[k];
                    assert(ctxs.skip(k as int).drop_first() == ctxs.skip(k + 1));
                    assert(ctxs.skip(k as int)[0] == ctxs[k as int]);
                    match checked_estimate(weights, model.size_class.as_str(), ctx, cfg) {
                        None => {
                            assert(!pick_fits(rest, model@, ctxs, *cfg, budget as int));
                            return false;
                        },
                        Some(est) => {
                            if est < budget {
                                assert(pick_fits(rest, model@, ctxs, *cfg, budget as int));
                                return true;
                            }
                        },
                    }
                    k += 1;
                }
                assert(ctxs.skip(k as int).len() == 0);
            },
            None => {},
        }
        p += 1;
    }
    assert(pv.skip(p as int).len() == 0);
    true
}

} // verus!
