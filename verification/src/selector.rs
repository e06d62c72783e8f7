use vstd::prelude::*;

use crate::cli::Task;
use crate::error::TokensmithError;
use crate::heuristics::{
    budget_of, choose_model, choose_quant_and_ctx, deref_all, model_candidates, quant_choice,
    quant_choice_fits, quant_choice_fits_exec, texts,
};
use crate::memory::MemoryConfig;
use crate::profiler::HardwareProfile;
use crate::profiles::Mode;
use crate::registry::{entries_view, ModelEntry, ModelEntryView, Registry};
use crate::text::{decimal, push_decimal};

verus! {

/// A model with the settings to serve it, and why they were chosen.
pub struct Selection {
    pub model: ModelEntry,
    pub quantization: String,
    pub context_tokens: u32,
    pub threads: u32,
    pub reasons: Vec<String>,
}

/// Worker threads: the performance cores when known, otherwise the logical cores less two,
/// kept between 1 and 16.
pub open spec fn thread_count(hw: HardwareProfile) -> u32 {
    match hw.performance_cores {
        Some(p) => p,
        None => {
            let spare = if hw.logical_cores >= 2 { (hw.logical_cores - 2) as u32 } else { 0u32 };
            if spare < 1 { 1u32 } else if spare > 16 { 16u32 } else { spare }
        },
    }
}

pub fn threads_for(hw: &HardwareProfile) -> (r: u32)
    ensures
        r == thread_count(*hw),
{
    match hw.performance_cores {
        Some(p) => p,
        None => {
            let spare = hw.logical_cores.saturating_sub(2);
            if spare < 1 { 1 } else if spare > 16 { 16 } else { spare }
        },
    }
}

/// The first candidate for which a quantization and context fit, with that choice.
pub open spec fn first_fit(cands: Seq<ModelEntryView>, mode: Mode, hw: HardwareProfile, cfg: MemoryConfig) -> Option<(ModelEntryView, Seq<char>, u32)>
    decreases cands.len(),
{
    if cands.len() == 0 {
        None
    } else {
        match quant_choice(cands[0], mode, hw, cfg) {
            Some((q, c)) => Some((cands[0], q, c)),
            None => first_fit(cands.drop_first(), mode, hw, cfg),
        }
    }
}

/// No estimate computed while trying the candidates in turn overflows.
pub open spec fn first_fit_fits(cands: Seq<ModelEntryView>, mode: Mode, hw: HardwareProfile, cfg: MemoryConfig) -> bool
    decreases cands.len(),
{
    cands.len() == 0 || (quant_choice_fits(cands[0], mode, hw, cfg) && (quant_choice(cands[0], mode, hw, cfg) is Some
        || first_fit_fits(cands.drop_first(), mode, hw, cfg)))
}

/// The reasons a selection lists: the budget and the pick, then the threads and the mode.
pub open spec fn selection_reasons(first_two: Seq<Seq<char>>, threads: u32, mode: Mode) -> Seq<Seq<char>> {
    first_two + seq!["threads set to "@ + decimal(threads as nat), "mode "@ + mode.name() + " selected"@]
}

/// The message when nothing fits.
pub open spec fn no_fit_message(task: Task, mode: Mode) -> Seq<char> {
    "no model in registry fits memory for task '"@ + task.name() + "' and mode '"@ + mode.name()
        + "'. try --mode fast"@
}

/// Recommends the first candidate model (largest first) for which some preferred
/// quantization fits in memory, with its context, thread count and reasons.
pub fn recommend(
    registry: &Registry,
    hw: &HardwareProfile,
    task: Task,
    mode: Mode,
    cfg: &MemoryConfig,
) -> (r: Result<Selection, TokensmithError>)
    requires
        first_fit_fits(model_candidates(entries_view(registry.models@), task.name()), mode, *hw, *cfg),
    ensures
        match first_fit(model_candidates(entries_view(registry.models@), task.name()), mode, *hw, *cfg) {
            Some((m, q, c)) => r matches Ok(sel) && sel.model@ == m && sel.quantization@ == q
                && sel.context_tokens == c && sel.threads == thread_count(*hw) && texts(sel.reasons@)
                == selection_reasons(
                    seq![
                        crate::heuristics::budget_reason(budget_of(*hw, *cfg) as nat),
                        crate::heuristics::selected_reason(q, c),
                    ],
                    thread_count(*hw),
                    mode,
                ),
            None => r matches Err(TokensmithError::Runtime(msg)) && msg@ == no_fit_message(task, mode),
        },
{
    let candidates = choose_model(registry, task);
    let ghost cands = model_candidates(entries_view(registry.models@), task.name());
    let mut i: usize = 0;
    assert(cands.skip(0) == cands);
    while i < candidates.len()
        invariant
            i <= candidates@.len(),
            deref_all(candidates@) == cands,
            cands == model_candidates(entries_view(registry.models@), task.name()),
            first_fit(cands, mode, *hw, *cfg) == first_fit(cands.skip(i as int), mode, *hw, *cfg),
            first_fit_fits(cands.skip(i as int), mode, *hw, *cfg),
        decreases candidates.len() - i,
    {
        let c = candidates[i];
        let ghost rest = cands.skip(i as int);
        assert(rest.drop_first() == cands.skip(i + 1));
        assert(rest[0] == cands[i as int]);
        assert(c@ == cands[i as int]);
        match choose_quant_and_ctx(c, mode, hw, cfg) {
            Some((quant, ctx, reasons)) => {
                let mut reasons = reasons;
                let threads = threads_for(hw);
                let mut t = String::from_str("threads set to ");
                push_decimal(&mut t, threads as u64);
                reasons.push(t);
                let mut m = String::from_str("mode ");
                m.append(mode.as_str());
                m.append(" selected");
                reasons.push(m);
                let sel = Selection {
                    model: c.clone(),
                    quantization: quant,
                    context_tokens: ctx,
                    threads,
                    reasons,
                };
                assert(texts(sel.reasons@) =~= selection_reasons(
                    seq![
                        crate::heuristics::budget_reason(budget_of(*hw, *cfg) as nat),
                        crate::heuristics::selected_reason(sel.quantization@, ctx),
                    ],
                    thread_count(*hw),
                    mode,
                ));
                return Ok(sel);
            },
            None => {},
        }
        i += 1;
    }
    assert(cands.skip(i as int).len() == 0);
    let mut msg = String::from_str("no model in registry fits memory for task '");
    msg.append(task.as_str());
    msg.append("' and mode '");
    msg.append(mode.as_str());
    msg.append("'. try --mode fast");
    Err(TokensmithError::Runtime(msg))
}


/// Whether no estimate computed while trying the candidates in turn overflows.
pub fn candidates_fit(cands: &Vec<&ModelEntry>, hw: &HardwareProfile, mode: Mode, cfg: &MemoryConfig) -> (r: bool)
    ensures
        r == first_fit_fits(deref_all(cands@), mode, *hw, *cfg),
{
    let ghost cs = deref_all(cands@);
    let mut i: usize = 0;
    assert(cs.skip(0) == cs);
    while i < cands.len()
        invariant
            i <= cands@.len(),
            cs == deref_all(cands@),
            first_fit_fits(cs, mode, *hw, *cfg) == first_fit_fits(cs.skip(i as int), mode, *hw, *cfg),
        decreases cands.len() - i,
    {
        let c = cands[i];
        let ghost rest = cs.skip(i as int);
        assert(rest.drop_first() == cs.skip(i + 1));
        assert(rest[0] == c@);
        if !quant_choice_fits_exec(c, mode, hw, cfg) {
            return false;
        }
        match choose_quant_and_ctx(c, mode, hw, cfg) {
            Some(_) => {
                return true;
            },
            None => {},
        }
        i += 1;
    }
    assert(cs.skip(i as int).len() == 0);
    true
}

/// Whether `recommend` may be called on these inputs: no estimate it computes overflows.
pub fn recommend_fits(
    registry: &Registry,
    hw: &HardwareProfile,
    task: Task,
    mode: Mode,
    cfg: &MemoryConfig,
) -> (r: bool)
    ensures
        r == first_fit_fits(model_candidates(entries_view(registry.models@), task.name()), mode, *hw, *cfg),
{
    let candidates = choose_model(registry, task);
    candidates_fit(&candidates, hw, mode, cfg)
}

} // verus!
