//! The texts of the debug overlay: process memory read from the system's
//! reports, and the language model's prompt statistics.

use vstd::prelude::*;
use crate::text::{
    chars_of, string_of, extend_chars, trim, trim_chars, starts_with, starts_with_chars, slice_chars,
    lines, split_lines, char_seqs, decimal, decimal_chars, parsed_u64, parse_u64, is_whitespace,
    char_is_whitespace, contains_seq, contains_chars,
};

verus! {

broadcast use vstd::seq_lib::group_seq_properties;

/// The pieces of `s` between the `c` characters, as `str::split(c)` gives
/// them (an empty text gives one empty piece).
pub open spec fn split_on(s: Seq<char>, c: char) -> Seq<Seq<char>>
    decreases s.len(),
{
    if s.len() == 0 {
        seq![Seq::empty()]
    } else {
        let t = split_on(s.drop_last(), c);
        if s.last() == c {
            t.push(Seq::empty())
        } else {
            t.drop_last().push(t.last().push(s.last()))
        }
    }
}

/// The words of `s`: its maximal runs of non-whitespace characters, as
/// `str::split_whitespace` gives them.
pub open spec fn words(s: Seq<char>) -> Seq<Seq<char>>
    decreases s.len(),
{
    if s.len() == 0 {
        Seq::empty()
    } else {
        let t = words(s.drop_last());
        let c = s.last();
        if is_whitespace(c) {
            t
        } else if s.len() >= 2 && !is_whitespace(s[s.len() - 2]) {
            t.drop_last().push(t.last().push(c))
        } else {
            t.push(seq![c])
        }
    }
}

/// `s` with `p` taken off its end as often as it ends with it, as
/// `str::trim_end_matches(p)` does for a non-empty `p`.
pub open spec fn trim_suffix_all(s: Seq<char>, p: Seq<char>) -> Seq<char>
    decreases s.len(),
{
    if p.len() > 0 && s.len() >= p.len() && s.skip(s.len() - p.len()) == p {
        trim_suffix_all(s.take(s.len() - p.len()), p)
    } else {
        s
    }
}

/// Each piece trimmed.
pub open spec fn trim_all(ps: Seq<Seq<char>>) -> Seq<Seq<char>> {
    ps.map_values(|p: Seq<char>| trim(p))
}

/// What `str::parse::<u32>` gives.
pub open spec fn parsed_u32(s: Seq<char>) -> Option<u32> {
    match parsed_u64(s) {
        Some(v) => if v <= u32::MAX { Some(v as u32) } else { None },
        None => None,
    }
}

proof fn lemma_words_last_nonempty(s: Seq<char>)
    requires
        s.len() >= 1,
        !is_whitespace(s.last()),
    ensures
        words(s).len() >= 1,
    decreases s.len(),
{
    if s.len() >= 2 && !is_whitespace(s[s.len() - 2]) {
        assert(s.drop_last().last() == s[s.len() - 2]);
        lemma_words_last_nonempty(s.drop_last());
    }
}

/// The pieces of `v` between the `c` characters.
pub fn split_on_chars(v: &[char], c: char) -> (r: Vec<Vec<char>>)
    ensures
        char_seqs(r@) == split_on(v@, c),
{
    let mut r: Vec<Vec<char>> = Vec::new();
    r.push(Vec::new());
    assert(char_seqs(r@) =~= split_on(v@.take(0), c));
    let mut i: usize = 0;
    while i < v.len()
        invariant
            i <= v.len(),
            r.len() >= 1,
            char_seqs(r@) == split_on(v@.take(i as int), c),
        decreases v.len() - i,
    {
        assert(v@.take(i + 1).drop_last() =~= v@.take(i as int));
        let ghost before = char_seqs(r@);
        if v[i] == c {
            r.push(Vec::new());
            assert(char_seqs(r@) =~= before.push(Seq::empty()));
        } else {
            let mut last = r.pop().unwrap();
            last.push(v[i]);
            r.push(last);
            assert(char_seqs(r@) =~= before.drop_last().push(before.last().push(v@[i as int])));
        }
        i += 1;
    }
    assert(v@.take(v.len() as int) =~= v@);
    r
}

/// The words of `v`.
pub fn words_of(v: &[char]) -> (r: Vec<Vec<char>>)
    ensures
        char_seqs(r@) == words(v@),
{
    let mut r: Vec<Vec<char>> = Vec::new();
    assert(char_seqs(r@) =~= words(v@.take(0)));
    let mut i: usize = 0;
    while i < v.len()
        invariant
            i <= v.len(),
            char_seqs(r@) == words(v@.take(i as int)),
        decreases v.len() - i,
    {
        let ghost s = v@.take(i + 1);
        assert(s.drop_last() =~= v@.take(i as int));
        let ghost before = char_seqs(r@);
        if !char_is_whitespace(v[i]) {
            if i >= 1 && !char_is_whitespace(v[i - 1]) {
                assert(s[s.len() - 2] == v@[i - 1]);
                proof {
                    assert(v@.take(i as int).last() == v@[i - 1]);
                    lemma_words_last_nonempty(v@.take(i as int));
                }
                let mut last = r.pop().unwrap();
                last.push(v[i]);
                r.push(last);
                assert(char_seqs(r@) =~= before.drop_last().push(before.last().push(v@[i as int])));
            } else {
                let mut w: Vec<char> = Vec::new();
                w.push(v[i]);
                r.push(w);
                assert(char_seqs(r@) =~= before.push(seq![v@[i as int]]));
            }
        }
        i += 1;
    }
    assert(v@.take(v.len() as int) =~= v@);
    r
}

/// `v` with `p` taken off its end as often as it ends with it.
pub fn trim_suffix_all_chars(v: &[char], p: &[char]) -> (r: Vec<char>)
    ensures
        r@ == trim_suffix_all(v@, p@),
{
    let mut end: usize = v.len();
    assert(v@.take(end as int) =~= v@);
    loop
        invariant
            end <= v.len(),
            trim_suffix_all(v@, p@) == trim_suffix_all(v@.take(end as int), p@),
        decreases end,
    {
        let ghost s = v@.take(end as int);
        if p.len() > 0 && end >= p.len() {
            let tail = slice_chars(v, end - p.len(), end);
            assert(tail@ =~= s.skip(s.len() - p@.len()));
            if starts_with_chars(tail.as_slice(), p) {
                assert(tail@.take(p@.len() as int) =~= tail@);
                assert(s.take(s.len() - p@.len()) =~= v@.take(end - p.len()));
                end = end - p.len();
            } else {
                assert(!(tail@ == p@)) by {
                    if tail@ == p@ {
                        assert(tail@.take(p@.len() as int) =~= tail@);
                    }
                }
                return slice_chars(v, 0, end);
            }
        } else {
            return slice_chars(v, 0, end);
        }
    }
}

/// The number after `VmRSS:` in the first line that carries one.
pub open spec fn rss_field(ls: Seq<Seq<char>>) -> Option<Seq<char>>
    decreases ls.len(),
{
    if ls.len() == 0 {
        None
    } else if starts_with(ls[0], "VmRSS:"@) {
        Some(ls[0].skip(6))
    } else {
        rss_field(ls.drop_first())
    }
}

/// The RAM line of the overlay, read from the process status report: the
/// resident set size in whole MiB (0 when the number does not parse), or
/// `N/A` when the report has no `VmRSS:` line.
pub open spec fn ram_line(status: Seq<char>) -> Seq<char> {
    match rss_field(lines(status)) {
        Some(v) => {
            let kb = match parsed_u64(trim(trim_suffix_all(trim(v), " kB"@))) {
                Some(x) => x,
                None => 0,
            };
            "RAM: "@ + decimal((kb / 1024) as nat) + " MB"@
        },
        None => "RAM: N/A"@,
    }
}

/// The RAM line of the overlay, from the text of `/proc/self/status`.
pub fn ram_text(status: &str) -> (r: String)
    ensures
        r@ == ram_line(status@),
{
    let ls = split_lines(chars_of(status).as_slice());
    let prefix = chars_of("VmRSS:");
    proof {
        reveal_strlit("VmRSS:");
    }
    let mut i: usize = 0;
    while i < ls.len()
        invariant
            i <= ls.len(),
            prefix@ == "VmRSS:"@,
            rss_field(lines(status@)) == rss_field(char_seqs(ls@).skip(i as int)),
        decreases ls.len() - i,
    {
        let ghost rest = char_seqs(ls@).skip(i as int);
        assert(rest[0] == ls@[i as int]@);
        proof {
            reveal_strlit("VmRSS:");
        }
        if starts_with_chars(ls[i].as_slice(), prefix.as_slice()) {
            let val = slice_chars(ls[i].as_slice(), 6, ls[i].len());
            assert(val@ =~= ls@[i as int]@.skip(6));
            let t = trim_chars(val.as_slice());
            let t = trim_suffix_all_chars(t.as_slice(), chars_of(" kB").as_slice());
            let t = trim_chars(t.as_slice());
            let kb: u64 = match parse_u64(t.as_slice()) {
                Some(x) => x,
                None => 0,
            };
            let mut out = chars_of("RAM: ");
            extend_chars(&mut out, decimal_chars(kb / 1024).as_slice());
            extend_chars(&mut out, chars_of(" MB").as_slice());
            return string_of(out.as_slice());
        }
        assert(rest.drop_first() =~= char_seqs(ls@).skip(i + 1));
        i += 1;
    }
    "RAM: N/A".to_owned()
}

/// The GPU memory reported for process `pid` in the compute-apps listing
/// (`pid, used memory` lines): the memory field of the first line whose two
/// fields, trimmed, start with that pid.
pub open spec fn compute_apps_field(ls: Seq<Seq<char>>, pid: u32) -> Option<Seq<char>>
    decreases ls.len(),
{
    if ls.len() == 0 {
        None
    } else {
        let parts = trim_all(split_on(ls[0], ','));
        if parts.len() == 2 && parsed_u32(parts[0]) == Some(pid) {
            Some(parts[1])
        } else {
            compute_apps_field(ls.drop_first(), pid)
        }
    }
}

/// The GPU memory reported for process `pid` by the process monitor: the
/// fourth word of the first line that mentions the pid and has four words.
pub open spec fn pmon_field(ls: Seq<Seq<char>>, pid: u32) -> Option<Seq<char>>
    decreases ls.len(),
{
    if ls.len() == 0 {
        None
    } else if contains_seq(ls[0], decimal(pid as nat)) && words(ls[0]).len() >= 4 {
        Some(words(ls[0])[3])
    } else {
        pmon_field(ls.drop_first(), pid)
    }
}

/// The VRAM line of the overlay for a reported memory amount.
pub open spec fn vram_line(field: Seq<char>) -> Seq<char> {
    "VRAM: "@ + field + " MB"@
}

fn vram_text(field: &[char]) -> (r: String)
    ensures
        r@ == vram_line(field@),
{
    let mut out = chars_of("VRAM: ");
    extend_chars(&mut out, field);
    extend_chars(&mut out, chars_of(" MB").as_slice());
    string_of(out.as_slice())
}

fn trimmed_parts(line: &[char]) -> (r: Vec<Vec<char>>)
    ensures
        char_seqs(r@) == trim_all(split_on(line@, ',')),
{
    let parts = split_on_chars(line, ',');
    let mut r: Vec<Vec<char>> = Vec::new();
    let mut k: usize = 0;
    while k < parts.len()
        invariant
            k <= parts.len(),
            char_seqs(parts@) == split_on(line@, ','),
            char_seqs(r@) == trim_all(split_on(line@, ',').take(k as int)),
        decreases parts.len() - k,
    {
        let t = trim_chars(parts[k].as_slice());
        let ghost before = r@;
        r.push(t);
        proof {
            crate::text::lemma_char_seqs_push(before, t);
        }
        assert(char_seqs(parts@)[k as int] == parts@[k as int]@);
        assert(split_on(line@, ',').take(k + 1) =~= split_on(line@, ',').take(k as int).push(split_on(line@, ',')[k as int]));
        assert(char_seqs(r@) =~= trim_all(split_on(line@, ',').take(k + 1)));
        k += 1;
    }
    assert(split_on(line@, ',').take(parts.len() as int) =~= split_on(line@, ','));
    r
}

/// The VRAM line read from the compute-apps listing, if it lists `pid`.
pub fn vram_from_compute_apps(listing: &str, pid: u32) -> (r: Option<String>)
    ensures
        match r {
            Some(s) => compute_apps_field(lines(listing@), pid) matches Some(f) && s@ == vram_line(f),
            None => compute_apps_field(lines(listing@), pid) is None,
        },
{
    let ls = split_lines(chars_of(listing).as_slice());
    let mut i: usize = 0;
    while i < ls.len()
        invariant
            i <= ls.len(),
            compute_apps_field(lines(listing@), pid) == compute_apps_field(char_seqs(ls@).skip(i as int), pid),
        decreases ls.len() - i,
    {
        let ghost rest = char_seqs(ls@).skip(i as int);
        assert(rest[0] == ls@[i as int]@);
        let parts = trimmed_parts(ls[i].as_slice());
        if parts.len() == 2 {
            assert(char_seqs(parts@)[0] == parts@[0]@);
            assert(char_seqs(parts@)[1] == parts@[1]@);
            if let Some(p) = parse_u64(parts[0].as_slice()) {
                if p == pid as u64 {
                    return Some(vram_text(parts[1].as_slice()));
                }
            }
        }
        assert(rest.drop_first() =~= char_seqs(ls@).skip(i + 1));
        i += 1;
    }
    None
}

/// The VRAM line read from the process monitor's report, if it lists `pid`.
pub fn vram_from_pmon(report: &str, pid: u32) -> (r: Option<String>)
    ensures
        match r {
            Some(s) => pmon_field(lines(report@), pid) matches Some(f) && s@ == vram_line(f),
            None => pmon_field(lines(report@), pid) is None,
        },
{
    let ls = split_lines(chars_of(report).as_slice());
    let pid_text = decimal_chars(pid as u64);
    let mut i: usize = 0;
    while i < ls.len()
        invariant
            i <= ls.len(),
            pid_text@ == decimal(pid as nat),
            pmon_field(lines(report@), pid) == pmon_field(char_seqs(ls@).skip(i as int), pid),
        decreases ls.len() - i,
    {
        let ghost rest = char_seqs(ls@).skip(i as int);
        assert(rest[0] == ls@[i as int]@);
        if contains_chars(ls[i].as_slice(), pid_text.as_slice()) {
            let ws = words_of(ls[i].as_slice());
            if ws.len() >= 4 {
                assert(char_seqs(ws@)[3] == ws@[3]@);
                return Some(vram_text(ws[3].as_slice()));
            }
        }
        assert(rest.drop_first() =~= char_seqs(ls@).skip(i + 1));
        i += 1;
    }
    None
}

/// The LLM line of the overlay.
pub open spec fn llm_line(prompt_tokens: u64, ctx_tokens: u64, requests: u64, rejections: u64) -> Seq<char> {
    if requests == 0 {
        "LLM: idle (no requests)"@
    } else {
        "LLM: prompt="@ + decimal(prompt_tokens as nat) + "/"@ + decimal(ctx_tokens as nat) + " tok (req "@
            + decimal(requests as nat) + " / rej "@ + decimal(rejections as nat) + ")"@
    }
}

/// The LLM line of the overlay, from the model's request statistics.
pub fn llm_stats_text(prompt_tokens: u64, ctx_tokens: u64, requests: u64, rejections: u64) -> (r: String)
    ensures
        r@ == llm_line(prompt_tokens, ctx_tokens, requests, rejections),
{
    if requests == 0 {
        return "LLM: idle (no requests)".to_owned();
    }
    let mut out = chars_of("LLM: prompt=");
    extend_chars(&mut out, decimal_chars(prompt_tokens).as_slice());
    extend_chars(&mut out, chars_of("/").as_slice());
    extend_chars(&mut out, decimal_chars(ctx_tokens).as_slice());
    extend_chars(&mut out, chars_of(" tok (req ").as_slice());
    extend_chars(&mut out, decimal_chars(requests).as_slice());
    extend_chars(&mut out, chars_of(" / rej ").as_slice());
    extend_chars(&mut out, decimal_chars(rejections).as_slice());
    extend_chars(&mut out, chars_of(")").as_slice());
    string_of(out.as_slice())
}

} // verus!
