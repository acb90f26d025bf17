//! The per-worker message: segments `CPU=<id>;<unit>=<rate>` joined and
//! closed by `|`, decoded into an ordered report.
use vstd::prelude::*;
use crate::number::{FloatText, int_or_zero, int_value, float_or_zero, float_syntax, zero_text, parse_int};
use crate::text::{split_first, split_on, views, split_text, split_once};

verus! {

/// What one worker's entry holds.
pub struct StatModel {
    pub cpu_id: int,
    pub hashrate: Seq<char>,
    pub units: Seq<char>,
}

/// `s` without one closing `|`.
pub open spec fn strip_terminator(s: Seq<char>) -> Seq<char> {
    if s.len() > 0 && s.last() == '|' {
        s.drop_last()
    } else {
        s
    }
}

/// The segments of a per-worker message: the text without one closing `|`,
/// cut at every `|`; none where nothing is left.
pub open spec fn thread_segments(s: Seq<char>) -> Seq<Seq<char>> {
    let b = strip_terminator(s);
    if b.len() == 0 {
        Seq::empty()
    } else {
        split_on(b, '|')
    }
}

/// The identity part and the rate part of a segment, split at the first `;`.
pub open spec fn segment_parts(seg: Seq<char>) -> (Seq<char>, Seq<char>) {
    match split_first(seg, ';') {
        Some(p) => p,
        None => (Seq::empty(), Seq::empty()),
    }
}

/// One worker's entry: the id after the first `=` of the identity part read
/// as a `u32` (0 where it is absent or does not read), the unit before the
/// first `=` of the rate part (`H/s` where there is no `=`), and the rate
/// after it where it is a floating-point literal (zero otherwise).
pub open spec fn stat_of(seg: Seq<char>) -> StatModel {
    let (cpu_part, rate_part) = segment_parts(seg);
    StatModel {
        cpu_id: match split_first(cpu_part, '=') {
            Some((_k, v)) => int_or_zero(v, false, 0, u32::MAX as int),
            None => 0,
        },
        units: match split_first(rate_part, '=') {
            Some((u, _h)) => u,
            None => "H/s"@,
        },
        hashrate: match split_first(rate_part, '=') {
            Some((_u, h)) => float_or_zero(h),
            None => zero_text(),
        },
    }
}

/// The report that a per-worker message decodes to, one entry per segment,
/// in the order of the message.
pub open spec fn thread_model(s: Seq<char>) -> Seq<StatModel> {
    thread_segments(s).map_values(|seg: Seq<char>| stat_of(seg))
}

/// One worker's rate; `hashrate` is in `units`, not scaled to a base unit.
#[derive(Clone, Debug, PartialEq)]
pub struct ThreadStat {
    pub cpu_id: u32,
    pub hashrate: FloatText,
    pub units: String,
}

impl View for ThreadStat {
    type V = StatModel;

    open spec fn view(&self) -> StatModel {
        StatModel { cpu_id: self.cpu_id as int, hashrate: self.hashrate@, units: self.units@ }
    }
}

/// The per-worker rates, in the order the daemon listed them.
#[derive(Clone, Debug, PartialEq)]
pub struct APIThreads {
    pub thread_stats: Vec<ThreadStat>,
}

impl View for APIThreads {
    type V = Seq<StatModel>;

    open spec fn view(&self) -> Seq<StatModel> {
        self.thread_stats@.map_values(|t: ThreadStat| t@)
    }
}

impl APIThreads {
    /// Every rate holds a floating-point literal.
    pub open spec fn wf(&self) -> bool {
        forall|i: int| 0 <= i < self.thread_stats@.len() ==> (#[trigger] self.thread_stats@[i]).hashrate.wf()
    }
}

impl Default for APIThreads {
    fn default() -> (r: APIThreads)
        ensures
            r@ == Seq::<StatModel>::empty(),
            r.wf(),
    {
        let r = APIThreads { thread_stats: Vec::new() };
        assert(r@ =~= Seq::<StatModel>::empty());
        r
    }
}

/// Decodes one segment into a worker's entry.
pub fn stat_of_text(seg: &str) -> (r: ThreadStat)
    ensures
        r@ == stat_of(seg@),
        r.hashrate.wf(),
{
    let (cpu_part, rate_part) = match split_once(seg, ';') {
        Some(p) => p,
        None => (String::new(), String::new()),
    };
    let cpu_id: u32 = match split_once(cpu_part.as_str(), '=') {
        Some((_k, v)) => match parse_int(v.as_str(), false, 0, u32::MAX as i64) {
            Some(x) => x as u32,
            None => 0,
        },
        None => 0,
    };
    let (units, hashrate) = match split_once(rate_part.as_str(), '=') {
        Some((u, h)) => (u, FloatText::parse_or_zero(h.as_str())),
        None => (String::from_str("H/s"), FloatText::zero()),
    };
    ThreadStat { cpu_id, hashrate, units }
}

/// Decodes a per-worker message. Never fails: an id or rate that does not
/// read becomes 0, and the entries keep the message's order, ids unsorted and
/// repeated ids kept.
pub fn parse_thread_data(raw_threads_message: &str) -> (r: APIThreads)
    ensures
        r@ == thread_model(raw_threads_message@),
        r.wf(),
{
    let mut len = raw_threads_message.unicode_len();
    if len > 0 && raw_threads_message.get_char(len - 1) == '|' {
        len -= 1;
    }
    let body = raw_threads_message.substring_char(0, len);
    assert(body@ =~= strip_terminator(raw_threads_message@));
    let segs = if len == 0 {
        Vec::new()
    } else {
        split_text(body, '|')
    };
    let n = segs.len();
    let ghost model = thread_segments(raw_threads_message@);
    assert(model =~= views(segs@).take(n as int));
    let mut stats: Vec<ThreadStat> = Vec::new();
    let mut i: usize = 0;
    while i < n
        invariant
            i <= n <= segs@.len(),
            model == views(segs@).take(n as int),
            stats@.map_values(|t: ThreadStat| t@) == model.map_values(|seg: Seq<char>| stat_of(seg)).take(i as int),
            forall|j: int| 0 <= j < stats@.len() ==> (#[trigger] stats@[j]).hashrate.wf(),
        decreases n - i,
    {
        let st = stat_of_text(segs[i].as_str());
        let ghost before = stats@;
        stats.push(st);
        assert(model[i as int] == segs@[i as int]@);
        assert(stats@.map_values(|t: ThreadStat| t@) =~= before.map_values(|t: ThreadStat| t@).push(st@));
        assert(stats@.map_values(|t: ThreadStat| t@) =~= model.map_values(|seg: Seq<char>| stat_of(seg)).take(i + 1));
        i += 1;
    }
    let r = APIThreads { thread_stats: stats };
    assert(r@ =~= thread_model(raw_threads_message@));
    r
}

/// A worker id that is no `u32` decodes to 0, and a rate that is no
/// floating-point literal decodes to zero; the rest of the entry stands.
pub proof fn lemma_bad_numbers_default(seg: Seq<char>)
    ensures
        ({
            let (cpu_part, rate_part) = segment_parts(seg);
            &&& match split_first(cpu_part, '=') {
                Some((_k, v)) => int_value(v, false) is None ==> stat_of(seg).cpu_id == 0,
                None => stat_of(seg).cpu_id == 0,
            }
            &&& match split_first(rate_part, '=') {
                Some((u, h)) => !float_syntax(h) ==> stat_of(seg).hashrate == zero_text()
                    && stat_of(seg).units == u,
                None => stat_of(seg).hashrate == zero_text(),
            }
        }),
{
}

/// The empty message, and one that is only the closing `|`, decode to the
/// empty report.
pub proof fn lemma_empty_threads()
    ensures
        thread_model(Seq::empty()) == Seq::<StatModel>::empty(),
        thread_model(seq!['|']) == Seq::<StatModel>::empty(),
{
    assert(seq!['|'].drop_last() =~= Seq::<char>::empty());
    let e = Seq::<char>::empty();
    assert(thread_model(e) =~= Seq::<StatModel>::empty());
}

/// A closing `|` adds no entry: the message with it decodes as the message
/// without it, where that does not already end in `|`.
pub proof fn lemma_closing_bar(s: Seq<char>)
    requires
        s.len() == 0 || s.last() != '|',
    ensures
        thread_model(s.push('|')) == thread_model(s),
{
    assert(s.push('|').drop_last() =~= s);
    assert(strip_terminator(s) == s);
}

/// Decoding is a function of the text alone: two reports decoded from the
/// same message are equal.
pub proof fn lemma_threads_repeatable(s: Seq<char>, a: APIThreads, b: APIThreads)
    requires
        a@ == thread_model(s),
        b@ == thread_model(s),
    ensures
        a@ == b@,
{
}

} // verus!
