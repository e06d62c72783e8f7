use vstd::prelude::*;

use crate::error::TokensmithError;
use crate::text::{chars_of, concat, str_eq, trim, trim_bounds};

verus! {

/// One quantized artifact of a model and its approximate size.
pub struct QuantizationInfo {
    pub name: String,
    pub approx_size_bytes: u64,
}

/// A model the registry offers.
pub struct ModelEntry {
    pub id: String,
    pub name: String,
    pub task: String,
    pub size_class: String,
    pub format: String,
    pub downloads: Vec<String>,
    pub sha256: Option<String>,
    pub quantizations: Vec<QuantizationInfo>,
    pub default_context: u32,
    pub max_context: u32,
}

/// The curated list of models.
pub struct Registry {
    pub models: Vec<ModelEntry>,
}

/// A model entry as a value: its lists taken as sequences.
pub struct ModelEntryView {
    pub id: String,
    pub name: String,
    pub task: String,
    pub size_class: String,
    pub format: String,
    pub downloads: Seq<String>,
    pub sha256: Option<String>,
    pub quantizations: Seq<QuantizationInfo>,
    pub default_context: u32,
    pub max_context: u32,
}

impl View for ModelEntry {
    type V = ModelEntryView;

    open spec fn view(&self) -> ModelEntryView {
        ModelEntryView {
            id: self.id,
            name: self.name,
            task: self.task,
            size_class: self.size_class,
            format: self.format,
            downloads: self.downloads@,
            sha256: self.sha256,
            quantizations: self.quantizations@,
            default_context: self.default_context,
            max_context: self.max_context,
        }
    }
}

/// The entries of a list of models, as values.
pub open spec fn entries_view(ms: Seq<ModelEntry>) -> Seq<ModelEntryView> {
    ms.map_values(|m: ModelEntry| m@)
}

impl View for Registry {
    type V = Seq<ModelEntryView>;

    open spec fn view(&self) -> Seq<ModelEntryView> {
        entries_view(self.models@)
    }
}

impl Clone for QuantizationInfo {
    fn clone(&self) -> (r: Self)
        ensures
            r == *self,
    {
        QuantizationInfo { name: self.name.clone(), approx_size_bytes: self.approx_size_bytes }
    }
}

/// A copy of a vector whose elements are copied exactly.
fn clone_strings(v: &Vec<String>) -> (r: Vec<String>)
    ensures
        r@ == v@,
{
    let mut r: Vec<String> = Vec::new();
    let mut i: usize = 0;
    while i < v.len()
        invariant
            i <= v@.len(),
            r@ == v@.take(i as int),
        decreases v.len() - i,
    {
        r.push(v[i].clone());
        assert(v@.take(i + 1) == v@.take(i as int).push(v@[i as int]));
        i += 1;
    }
    assert(v@.take(i as int) == v@);
    r
}

fn clone_quantizations(v: &Vec<QuantizationInfo>) -> (r: Vec<QuantizationInfo>)
    ensures
        r@ == v@,
{
    let mut r: Vec<QuantizationInfo> = Vec::new();
    let mut i: usize = 0;
    while i < v.len()
        invariant
            i <= v@.len(),
            r@ == v@.take(i as int),
        decreases v.len() - i,
    {
        r.push(v[i].clone());
        assert(v@.take(i + 1) == v@.take(i as int).push(v@[i as int]));
        i += 1;
    }
    assert(v@.take(i as int) == v@);
    r
}

impl Clone for ModelEntry {
    fn clone(&self) -> (r: Self)
        ensures
            r@ == self@,
    {
        let sha256 = match &self.sha256 {
            Some(s) => Some(s.clone()),
            None => None,
        };
        ModelEntry {
            id: self.id.clone(),
            name: self.name.clone(),
            task: self.task.clone(),
            size_class: self.size_class.clone(),
            format: self.format.clone(),
            downloads: clone_strings(&self.downloads),
            sha256,
            quantizations: clone_quantizations(&self.quantizations),
            default_context: self.default_context,
            max_context: self.max_context,
        }
    }
}

/// A copy of a list of models, each copied exactly.
fn clone_models(v: &Vec<ModelEntry>) -> (r: Vec<ModelEntry>)
    ensures
        entries_view(r@) == entries_view(v@),
{
    let mut r: Vec<ModelEntry> = Vec::new();
    let mut i: usize = 0;
    while i < v.len()
        invariant
            i <= v@.len(),
            r@.len() == i,
            forall|j: int| 0 <= j < i ==> r@[j]@ == v@[j]@,
        decreases v.len() - i,
    {
        r.push(v[i].clone());
        i += 1;
    }
    assert(entries_view(r@) == entries_view(v@));
    r
}

impl Clone for Registry {
    fn clone(&self) -> (r: Self)
        ensures
            r@ == self@,
    {
        Registry { models: clone_models(&self.models) }
    }
}

/// The first thing wrong with a model entry, as the message that reports it.
pub open spec fn entry_problem(m: ModelEntry) -> Option<Seq<char>> {
    if trim(m.id@).len() == 0 {
        Some("model id is empty"@)
    } else if m.format@ != "gguf"@ {
        Some("model "@ + m.id@ + " has unsupported format "@ + m.format@)
    } else if m.downloads@.len() == 0 {
        Some("model "@ + m.id@ + " has no downloads"@)
    } else if m.quantizations@.len() == 0 {
        Some("model "@ + m.id@ + " has no quantization entries"@)
    } else {
        None
    }
}

/// The first problem among the entries, in registry order.
pub open spec fn first_problem(ms: Seq<ModelEntry>) -> Option<Seq<char>>
    decreases ms.len(),
{
    if ms.len() == 0 {
        None
    } else {
        match entry_problem(ms[0]) {
            Some(p) => Some(p),
            None => first_problem(ms.drop_first()),
        }
    }
}

/// The index of the first entry whose id is `id`.
pub open spec fn index_of_id(ms: Seq<ModelEntry>, id: Seq<char>) -> Option<int>
    decreases ms.len(),
{
    if ms.len() == 0 {
        None
    } else if ms[0].id@ == id {
        Some(0)
    } else {
        match index_of_id(ms.drop_first(), id) {
            Some(i) => Some(i + 1),
            None => None,
        }
    }
}

fn check_entry(m: &ModelEntry) -> (r: Option<String>)
    ensures
        match entry_problem(*m) {
            Some(p) => r matches Some(s) && s@ == p,
            None => r is None,
        },
{
    let id_chars = chars_of(m.id.as_str());
    let (lo, hi) = trim_bounds(&id_chars, 0, id_chars.len());
    assert(id_chars@.subrange(0, id_chars@.len() as int) == m.id@);
    if lo == hi {
        return Some(String::from_str("model id is empty"));
    }
    if !str_eq(m.format.as_str(), "gguf") {
        let mut s = concat("model ", m.id.as_str());
        s.append(" has unsupported format ");
        s.append(m.format.as_str());
        return Some(s);
    }
    if m.downloads.len() == 0 {
        let mut s = concat("model ", m.id.as_str());
        s.append(" has no downloads");
        return Some(s);
    }
    if m.quantizations.len() == 0 {
        let mut s = concat("model ", m.id.as_str());
        s.append(" has no quantization entries");
        return Some(s);
    }
    None
}

impl Registry {
    /// Checks that the registry lists at least one model and that every entry has an id,
    /// the `gguf` format, a download and a quantization; the first failure is reported.
    pub fn validate(&self) -> (r: Result<(), TokensmithError>)
        ensures
            self.models@.len() == 0 ==> (r matches Err(TokensmithError::Config(m)) && m@ == "registry has no models"@),
            self.models@.len() > 0 ==> match first_problem(self.models@) {
                None => r is Ok,
                Some(p) => r matches Err(TokensmithError::Config(m)) && m@ == p,
            },
    {
        if self.models.len() == 0 {
            return Err(TokensmithError::Config(String::from_str("registry has no models")));
        }
        let mut i: usize = 0;
        assert(self.models@.skip(0) == self.models@);
        while i < self.models.len()
            invariant
                i <= self.models@.len(),
                first_problem(self.models@) == first_problem(self.models@.skip(i as int)),
            decreases self.models.len() - i,
        {
            assert(self.models@.skip(i as int).drop_first() == self.models@.skip(i + 1));
            assert(self.models@.skip(i as int)[0] == self.models@[i as int]);
            match check_entry(&self.models[i]) {
                Some(msg) => {
                    return Err(TokensmithError::Config(msg));
                },
                None => {},
            }
            i += 1;
        }
        assert(self.models@.skip(i as int).len() == 0);
        Ok(())
    }

    /// The first model whose id is `id`.
    pub fn by_id(&self, id: &str) -> (r: Option<&ModelEntry>)
        ensures
            match index_of_id(self.models@, id@) {
                Some(i) => r matches Some(m) && *m == self.models@[i] && 0 <= i < self.models@.len(),
                None => r is None,
            },
    {
        let mut i: usize = 0;
        assert(self.models@.skip(0) == self.models@);
        while i < self.models.len()
            invariant
                i <= self.models@.len(),
                match index_of_id(self.models@, id@) {
                    Some(k) => match index_of_id(self.models@.skip(i as int), id@) {
                        Some(j) => k == j + i,
                        None => false,
                    },
                    None => index_of_id(self.models@.skip(i as int), id@) is None,
                },
            decreases self.models.len() - i,
        {
            assert(self.models@.skip(i as int).drop_first() == self.models@.skip(i + 1));
            assert(self.models@.skip(i as int)[0] == self.models@[i as int]);
            if str_eq(self.models[i].id.as_str(), id) {
                return Some(&self.models[i]);
            }
            i += 1;
        }
        None
    }
}

} // verus!
