use vstd::prelude::*;

use crate::text::{
    ascii_digits, ascii_digits_exec, chars_of, contains, contains_in_range, find, find_in_range,
    index_of, index_of_exec, line_ranges, lines, matches_at_exec, parse_uint, parse_uint_range,
    range_texts, starts_with, trim, trim_bounds, trim_start,
};

verus! {

/// What the machine offers: operating system, processor, memory and GPU.
pub struct HardwareProfile {
    pub os: String,
    pub arch: String,
    pub cpu_brand: String,
    pub logical_cores: u32,
    pub physical_cores: Option<u32>,
    pub performance_cores: Option<u32>,
    pub efficiency_cores: Option<u32>,
    pub total_mem_bytes: u64,
    pub available_mem_bytes: Option<u64>,
    pub has_gpu_accel: bool,
    pub gpu_backend: Option<String>,
}

fn clone_opt_string(s: &Option<String>) -> (r: Option<String>)
    ensures
        r == *s,
{
    match s {
        Some(v) => Some(v.clone()),
        None => None,
    }
}

impl Clone for HardwareProfile {
    fn clone(&self) -> (r: Self)
        ensures
            r == *self,
    {
        HardwareProfile {
            os: self.os.clone(),
            arch: self.arch.clone(),
            cpu_brand: self.cpu_brand.clone(),
            logical_cores: self.logical_cores,
            physical_cores: self.physical_cores,
            performance_cores: self.performance_cores,
            efficiency_cores: self.efficiency_cores,
            total_mem_bytes: self.total_mem_bytes,
            available_mem_bytes: self.available_mem_bytes,
            has_gpu_accel: self.has_gpu_accel,
            gpu_backend: clone_opt_string(&self.gpu_backend),
        }
    }
}


/// The first line that begins with `key` once its leading whitespace is removed.
pub open spec fn line_starting_with(ls: Seq<Seq<char>>, key: Seq<char>) -> Option<Seq<char>>
    decreases ls.len(),
{
    if ls.len() == 0 {
        None
    } else if starts_with(trim_start(ls[0]), key) {
        Some(ls[0])
    } else {
        line_starting_with(ls.drop_first(), key)
    }
}

/// The text between the first and the second `:` of a line (or the end), when it has a `:`
/// (`line.split(':').nth(1)`).
pub open spec fn second_colon_field(l: Seq<char>) -> Option<Seq<char>> {
    match index_of(l, ':') {
        None => None,
        Some(i) => {
            let rest = l.subrange(i + 1, l.len() as int);
            Some(
                match index_of(rest, ':') {
                    Some(j) => rest.subrange(0, j),
                    None => rest,
                },
            )
        },
    }
}

/// The page count `vm_stat` reports under `key`: the digits of the field after the first
/// `:` on the first line starting with `key`, or 0 when any of that is missing.
pub open spec fn vm_stat_pages(text: Seq<char>, key: Seq<char>) -> u64 {
    match line_starting_with(lines(text), key) {
        None => 0,
        Some(l) => match second_colon_field(l) {
            None => 0,
            Some(f) => match parse_uint(ascii_digits(f), u64::MAX as int) {
                Ok(v) => v as u64,
                Err(_) => 0,
            },
        },
    }
}

/// The page count under `key`, read from `cs[lo..hi]`, one line of `vm_stat` output.
fn pages_in_line(cs: &Vec<char>, lo: usize, hi: usize) -> (r: u64)
    requires
        lo <= hi <= cs@.len(),
    ensures
        r == match second_colon_field(cs@.subrange(lo as int, hi as int)) {
            None => 0,
            Some(f) => match parse_uint(ascii_digits(f), u64::MAX as int) {
                Ok(v) => v as u64,
                Err(_) => 0u64,
            },
        },
{
    let ghost l = cs@.subrange(lo as int, hi as int);
    match index_of_exec(cs, lo, hi, ':') {
        None => 0,
        Some(c1) => {
            let ghost rest = l.subrange(c1 - lo + 1, l.len() as int);
            assert(rest == cs@.subrange(c1 + 1, hi as int));
            let end = match index_of_exec(cs, c1 + 1, hi, ':') {
                Some(c2) => {
                    assert(rest.subrange(0, c2 - (c1 + 1)) == cs@.subrange(c1 + 1, c2 as int));
                    c2
                },
                None => hi,
            };
            let digits = ascii_digits_exec(cs, c1 + 1, end);
            match parse_uint_range(&digits, 0, digits.len(), u64::MAX) {
                Ok(v) => {
                    assert(digits@.subrange(0, digits@.len() as int) == digits@);
                    v
                },
                Err(_) => {
                    assert(digits@.subrange(0, digits@.len() as int) == digits@);
                    0
                },
            }
        },
    }
}

/// Reads the page count `vm_stat` reports under `key` (such as "Pages free:").
pub fn parse_vm_stat_pages(text: &str, key: &str) -> (r: u64)
    ensures
        r == vm_stat_pages(text@, key@),
{
    let cs = chars_of(text);
    let kc = chars_of(key);
    let rs = line_ranges(&cs);
    let ghost ls = lines(text@);
    let mut i: usize = 0;
    assert(ls.skip(0) == ls);
    while i < rs.len()
        invariant
            i <= rs@.len(),
            cs@ == text@,
            kc@ == key@,
            ls == lines(text@),
            range_texts(cs@, rs@) == ls,
            forall|k: int| 0 <= k < rs@.len() ==> (#[trigger] rs@[k]).0 <= rs@[k].1 <= cs@.len(),
            line_starting_with(ls, key@) == line_starting_with(ls.skip(i as int), key@),
        decreases rs.len() - i,
    {
        let (a, b) = rs[i];
        let ghost l = cs@.subrange(a as int, b as int);
        assert(ls[i as int] == l);
        assert(ls.skip(i as int).drop_first() == ls.skip(i + 1));
        assert(ls.skip(i as int)[0] == l);
        let (t0, _t1) = trim_bounds(&cs, a, b);
        let hit = kc.len() <= b - t0 && matches_at_exec(&cs, &kc, t0);
        assert(hit == starts_with(trim_start(l), key@)) by {
            if kc@.len() <= b - t0 {
                assert(cs@.subrange(t0 as int, b as int).subrange(0, kc@.len() as int) == cs@.subrange(
                    t0 as int,
                    t0 + kc@.len(),
                ));
            }
        }
        if hit {
            return pages_in_line(&cs, a, b);
        }
        i += 1;
    }
    assert(ls.skip(i as int) =~= Seq::<Seq<char>>::empty());
    0
}

/// The page size `vm_stat` states in its header ("page size of N bytes"), or 4096.
pub open spec fn vm_stat_page_size(text: Seq<char>) -> u64 {
    match first_line_containing(lines(text), "page size of"@) {
        None => 4096,
        Some(l) => match find(l, "page size of "@) {
            None => 4096,
            Some(i) => {
                let after = l.subrange(i + 13, l.len() as int);
                let seg = match find(after, "page size of "@) {
                    Some(j) => after.subrange(0, j),
                    None => after,
                };
                let num = match find(seg, " bytes"@) {
                    Some(j) => seg.subrange(0, j),
                    None => seg,
                };
                match parse_uint(trim(num), u64::MAX as int) {
                    Ok(v) => v as u64,
                    Err(_) => 4096,
                }
            },
        },
    }
}

/// The first line that contains `p`.
pub open spec fn first_line_containing(ls: Seq<Seq<char>>, p: Seq<char>) -> Option<Seq<char>>
    decreases ls.len(),
{
    if ls.len() == 0 {
        None
    } else if contains(ls[0], p) {
        Some(ls[0])
    } else {
        first_line_containing(ls.drop_first(), p)
    }
}

fn page_size_in_line(cs: &Vec<char>, a: usize, b: usize) -> (r: u64)
    requires
        a <= b <= cs@.len(),
    ensures
        r == match find(cs@.subrange(a as int, b as int), "page size of "@) {
            None => 4096u64,
            Some(i) => {
                let l = cs@.subrange(a as int, b as int);
                let after = l.subrange(i + 13, l.len() as int);
                let seg = match find(after, "page size of "@) {
                    Some(j) => after.subrange(0, j),
                    None => after,
                };
                let num = match find(seg, " bytes"@) {
                    Some(j) => seg.subrange(0, j),
                    None => seg,
                };
                match parse_uint(trim(num), u64::MAX as int) {
                    Ok(v) => v as u64,
                    Err(_) => 4096u64,
                }
            },
        },
{
    let marker = chars_of("page size of ");
    let unit = chars_of(" bytes");
    proof {
        reveal_strlit("page size of ");
    }
    let ghost l = cs@.subrange(a as int, b as int);
    match find_in_range(cs, a, b, &marker) {
        None => 4096,
        Some(m) => {
            let start = m + 13;
            let ghost after = l.subrange(m - a + 13, l.len() as int);
            assert(after == cs@.subrange(start as int, b as int));
            let seg_end = match find_in_range(cs, start, b, &marker) {
                Some(j) => {
                    assert(after.subrange(0, j - start) == cs@.subrange(start as int, j as int));
                    j
                },
                None => b,
            };
            let ghost seg = cs@.subrange(start as int, seg_end as int);
            let num_end = match find_in_range(cs, start, seg_end, &unit) {
                Some(j) => {
                    assert(seg.subrange(0, j - start) == cs@.subrange(start as int, j as int));
                    j
                },
                None => seg_end,
            };
            let (n0, n1) = trim_bounds(cs, start, num_end);
            match parse_uint_range(cs, n0, n1, u64::MAX) {
                Ok(v) => v,
                Err(_) => 4096,
            }
        },
    }
}

/// Reads the page size from `vm_stat` output.
pub fn parse_vm_stat_page_size(text: &str) -> (r: u64)
    ensures
        r == vm_stat_page_size(text@),
{
    let cs = chars_of(text);
    let pc = chars_of("page size of");
    let rs = line_ranges(&cs);
    let ghost ls = lines(text@);
    let mut i: usize = 0;
    assert(ls.skip(0) == ls);
    while i < rs.len()
        invariant
            i <= rs@.len(),
            cs@ == text@,
            pc@ == "page size of"@,
            ls == lines(text@),
            range_texts(cs@, rs@) == ls,
            forall|k: int| 0 <= k < rs@.len() ==> (#[trigger] rs@[k]).0 <= rs@[k].1 <= cs@.len(),
            first_line_containing(ls, "page size of"@) == first_line_containing(ls.skip(i as int), "page size of"@),
        decreases rs.len() - i,
    {
        let (a, b) = rs[i];
        let ghost l = cs@.subrange(a as int, b as int);
        assert(ls[i as int] == l);
        assert(ls.skip(i as int).drop_first() == ls.skip(i + 1));
        assert(ls.skip(i as int)[0] == l);
        if contains_in_range(&cs, a, b, &pc) {
            return page_size_in_line(&cs, a, b);
        }
        i += 1;
    }
    assert(ls.skip(i as int) =~= Seq::<Seq<char>>::empty());
    4096
}

/// The memory macOS could hand out: free, inactive, speculative and purgeable pages, in
/// bytes.
pub open spec fn vm_stat_reclaimable(text: Seq<char>) -> int {
    (vm_stat_pages(text, "Pages free:"@) + vm_stat_pages(text, "Pages inactive:"@) + vm_stat_pages(
        text,
        "Pages speculative:"@,
    ) + vm_stat_pages(text, "Pages purgeable:"@)) * vm_stat_page_size(text)
}

/// Reads the reclaimable memory, in bytes, from `vm_stat` output.
pub fn vm_stat_available_bytes(text: &str) -> (r: u64)
    requires
        vm_stat_pages(text@, "Pages free:"@) + vm_stat_pages(text@, "Pages inactive:"@) + vm_stat_pages(
            text@,
            "Pages speculative:"@,
        ) + vm_stat_pages(text@, "Pages purgeable:"@) <= u64::MAX,
        vm_stat_reclaimable(text@) <= u64::MAX,
    ensures
        r == vm_stat_reclaimable(text@),
{
    let page_size = parse_vm_stat_page_size(text);
    let free = parse_vm_stat_pages(text, "Pages free:");
    let inactive = parse_vm_stat_pages(text, "Pages inactive:");
    let speculative = parse_vm_stat_pages(text, "Pages speculative:");
    let purgeable = parse_vm_stat_pages(text, "Pages purgeable:");
    let pages = free + inactive + speculative + purgeable;
    pages * page_size
}

} // verus!
