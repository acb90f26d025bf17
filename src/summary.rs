//! The summary message: `KEY=value` terms joined by `;`, optionally closed by
//! `|` and then `%`, decoded into one status record.
use vstd::prelude::*;
use crate::number::{FloatText, int_or_zero, float_or_zero, zero_text, parse_int};
use crate::text::{split_first, split_on, trim, views, split_text, split_once, trim_text, same_text};

verus! {

/// `s` without one trailing `%`, then without one trailing `|`.
pub open spec fn strip_markers(s: Seq<char>) -> Seq<char> {
    let a = if s.len() > 0 && s.last() == '%' {
        s.drop_last()
    } else {
        s
    };
    if a.len() > 0 && a.last() == '|' {
        a.drop_last()
    } else {
        a
    }
}

/// A term's key and trimmed value; a term without `=` has both empty.
pub open spec fn entry_of(t: Seq<char>) -> (Seq<char>, Seq<char>) {
    match split_first(t, '=') {
        Some((k, v)) => (k, trim(v)),
        None => (Seq::empty(), Seq::empty()),
    }
}

/// The key/value entries of the terms, in order.
pub open spec fn entries_from(terms: Seq<Seq<char>>) -> Seq<(Seq<char>, Seq<char>)> {
    terms.map_values(|t: Seq<char>| entry_of(t))
}

/// The key/value entries of a summary message, in order.
pub open spec fn summary_entries(s: Seq<char>) -> Seq<(Seq<char>, Seq<char>)> {
    entries_from(split_on(strip_markers(s), ';'))
}

/// The value of the last entry with `key`.
pub open spec fn last_value(es: Seq<(Seq<char>, Seq<char>)>, key: Seq<char>) -> Option<Seq<char>>
    decreases es.len(),
{
    if es.len() == 0 {
        None
    } else if es.last().0 == key {
        Some(es.last().1)
    } else {
        last_value(es.drop_last(), key)
    }
}

/// A text field: the last value given for `key`, or empty.
pub open spec fn text_field(es: Seq<(Seq<char>, Seq<char>)>, key: Seq<char>) -> Seq<char> {
    match last_value(es, key) {
        Some(v) => v,
        None => Seq::empty(),
    }
}

/// An integer field of `lo..=hi`: the last value given for `key` read as an
/// integer, or 0 where it is absent, no integer or out of range.
pub open spec fn int_field(es: Seq<(Seq<char>, Seq<char>)>, key: Seq<char>, lo: int, hi: int) -> int {
    match last_value(es, key) {
        Some(v) => int_or_zero(v, true, lo, hi),
        None => 0,
    }
}

pub open spec fn i32_field(es: Seq<(Seq<char>, Seq<char>)>, key: Seq<char>) -> int {
    int_field(es, key, i32::MIN as int, i32::MAX as int)
}

/// A float field: the last value given for `key` where it is a
/// floating-point literal, or zero.
pub open spec fn float_field(es: Seq<(Seq<char>, Seq<char>)>, key: Seq<char>) -> Seq<char> {
    match last_value(es, key) {
        Some(v) => float_or_zero(v),
        None => zero_text(),
    }
}

/// What a status record holds.
pub struct SummaryModel {
    pub name: Seq<char>,
    pub version: Seq<char>,
    pub api: Seq<char>,
    pub algo: Seq<char>,
    pub cpu_count: int,
    pub url: Seq<char>,
    pub hs_per_sec: Seq<char>,
    pub khs_per_sec: Seq<char>,
    pub accepted_shares: int,
    pub rejected_shares: int,
    pub solutions_found: int,
    pub earnings: Seq<char>,
    pub difficulty: Seq<char>,
    pub temperature: Seq<char>,
    pub fan: int,
    pub frequency: int,
    pub uptime: int,
    pub timestamp: int,
}

/// The record that a summary message decodes to: each field is taken from
/// the last term with its key, and holds its default where there is none.
pub open spec fn summary_model(s: Seq<char>) -> SummaryModel {
    let es = summary_entries(s);
    SummaryModel {
        name: text_field(es, "NAME"@),
        version: text_field(es, "VER"@),
        api: text_field(es, "API"@),
        algo: text_field(es, "ALGO"@),
        cpu_count: i32_field(es, "CPUS"@),
        url: text_field(es, "URL"@),
        hs_per_sec: float_field(es, "HS"@),
        khs_per_sec: float_field(es, "KHS"@),
        accepted_shares: i32_field(es, "ACC"@),
        rejected_shares: i32_field(es, "REJ"@),
        solutions_found: i32_field(es, "SOL"@),
        earnings: float_field(es, "ACCMN"@),
        difficulty: float_field(es, "DIFF"@),
        temperature: float_field(es, "TEMP"@),
        fan: i32_field(es, "FAN"@),
        frequency: i32_field(es, "FREQ"@),
        uptime: i32_field(es, "UPTIME"@),
        timestamp: int_field(es, "TS"@, i64::MIN as int, i64::MAX as int),
    }
}

/// The record with every field at its default.
pub open spec fn default_model() -> SummaryModel {
    SummaryModel {
        name: Seq::empty(),
        version: Seq::empty(),
        api: Seq::empty(),
        algo: Seq::empty(),
        cpu_count: 0,
        url: Seq::empty(),
        hs_per_sec: zero_text(),
        khs_per_sec: zero_text(),
        accepted_shares: 0,
        rejected_shares: 0,
        solutions_found: 0,
        earnings: zero_text(),
        difficulty: zero_text(),
        temperature: zero_text(),
        fan: 0,
        frequency: 0,
        uptime: 0,
        timestamp: 0,
    }
}

/// One decoded status snapshot of the daemon.
#[derive(Clone, Debug, PartialEq)]
pub struct APISummary {
    pub name: String,
    pub version: String,
    pub api: String,
    pub algo: String,
    pub cpu_count: i32,
    pub url: String,
    pub hs_per_sec: FloatText,
    pub khs_per_sec: FloatText,
    pub accepted_shares: i32,
    pub rejected_shares: i32,
    pub solutions_found: i32,
    pub earnings: FloatText,
    pub difficulty: FloatText,
    pub temperature: FloatText,
    pub fan: i32,
    pub frequency: i32,
    /// In seconds.
    pub uptime: i32,
    /// Seconds since the epoch.
    pub timestamp: i64,
}

impl View for APISummary {
    type V = SummaryModel;

    open spec fn view(&self) -> SummaryModel {
        SummaryModel {
            name: self.name@,
            version: self.version@,
            api: self.api@,
            algo: self.algo@,
            cpu_count: self.cpu_count as int,
            url: self.url@,
            hs_per_sec: self.hs_per_sec@,
            khs_per_sec: self.khs_per_sec@,
            accepted_shares: self.accepted_shares as int,
            rejected_shares: self.rejected_shares as int,
            solutions_found: self.solutions_found as int,
            earnings: self.earnings@,
            difficulty: self.difficulty@,
            temperature: self.temperature@,
            fan: self.fan as int,
            frequency: self.frequency as int,
            uptime: self.uptime as int,
            timestamp: self.timestamp as int,
        }
    }
}

impl APISummary {
    /// Every float field holds a floating-point literal.
    pub open spec fn wf(&self) -> bool {
        &&& self.hs_per_sec.wf()
        &&& self.khs_per_sec.wf()
        &&& self.earnings.wf()
        &&& self.difficulty.wf()
        &&& self.temperature.wf()
    }
}

impl Default for APISummary {
    fn default() -> (r: APISummary)
        ensures
            r@ == default_model(),
            r.wf(),
    {
        APISummary {
            name: String::new(),
            version: String::new(),
            api: String::new(),
            algo: String::new(),
            cpu_count: 0,
            url: String::new(),
            hs_per_sec: FloatText::zero(),
            khs_per_sec: FloatText::zero(),
            accepted_shares: 0,
            rejected_shares: 0,
            solutions_found: 0,
            earnings: FloatText::zero(),
            difficulty: FloatText::zero(),
            temperature: FloatText::zero(),
            fan: 0,
            frequency: 0,
            uptime: 0,
            timestamp: 0,
        }
    }
}

/// The views of key/value pairs.
pub open spec fn entry_views(v: Seq<(String, String)>) -> Seq<(Seq<char>, Seq<char>)> {
    v.map_values(|e: (String, String)| (e.0@, e.1@))
}

/// `s` without one trailing `%`, then without one trailing `|`.
pub fn strip_markers_text(s: &str) -> (r: &str)
    ensures
        r@ == strip_markers(s@),
{
    let mut n = s.unicode_len();
    if n > 0 && s.get_char(n - 1) == '%' {
        n -= 1;
    }
    let ghost a = s@.subrange(0, n as int);
    assert(a =~= (if s@.len() > 0 && s@.last() == '%' { s@.drop_last() } else { s@ }));
    if n > 0 && s.get_char(n - 1) == '|' {
        n -= 1;
    }
    assert(s@.subrange(0, n as int) =~= strip_markers(s@));
    s.substring_char(0, n)
}

/// The key and trimmed value of a term; both empty where it has no `=`.
pub fn entry_of_text(t: &str) -> (r: (String, String))
    ensures
        (r.0@, r.1@) == entry_of(t@),
{
    match split_once(t, '=') {
        Some((k, v)) => {
            let v = trim_text(v.as_str());
            (k, v)
        },
        None => (String::new(), String::new()),
    }
}

/// The key/value entries of the terms, in order.
pub fn entries_of(terms: &Vec<String>) -> (r: Vec<(String, String)>)
    ensures
        entry_views(r@) == entries_from(views(terms@)),
{
    let mut r: Vec<(String, String)> = Vec::new();
    let mut i: usize = 0;
    while i < terms.len()
        invariant
            i <= terms@.len(),
            entry_views(r@) == entries_from(views(terms@)).take(i as int),
        decreases terms@.len() - i,
    {
        let e = entry_of_text(terms[i].as_str());
        let ghost before = r@;
        r.push(e);
        assert(views(terms@)[i as int] == terms@[i as int]@);
        assert(entry_views(r@) =~= entry_views(before).push((e.0@, e.1@)));
        assert(entry_views(r@) =~= entries_from(views(terms@)).take(
            i + 1,
        ));
        i += 1;
    }
    assert(entries_from(views(terms@)).take(i as int) =~= entries_from(views(terms@)));
    r
}

/// The value of the last entry with `key`.
pub fn lookup_last<'a>(es: &'a Vec<(String, String)>, key: &str) -> (r: Option<&'a String>)
    ensures
        match r {
            Some(v) => last_value(entry_views(es@), key@) == Some(v@),
            None => last_value(entry_views(es@), key@) is None,
        },
{
    let mut i: usize = es.len();
    assert(entry_views(es@).take(i as int) =~= entry_views(es@));
    while i > 0
        invariant
            i <= es@.len(),
            last_value(entry_views(es@), key@) == last_value(entry_views(es@).take(i as int), key@),
        decreases i,
    {
        let ghost t = entry_views(es@).take(i as int);
        assert(t.drop_last() =~= entry_views(es@).take(i - 1));
        assert(t.last() == (es@[i - 1].0@, es@[i - 1].1@));
        if same_text(es[i - 1].0.as_str(), key) {
            return Some(&es[i - 1].1);
        }
        i -= 1;
    }
    None
}

fn text_field_of(es: &Vec<(String, String)>, key: &str) -> (r: String)
    ensures
        r@ == text_field(entry_views(es@), key@),
{
    match lookup_last(es, key) {
        Some(v) => v.clone(),
        None => String::new(),
    }
}

fn int_field_of(es: &Vec<(String, String)>, key: &str, lo: i64, hi: i64) -> (r: i64)
    requires
        lo <= 0 <= hi,
    ensures
        r as int == int_field(entry_views(es@), key@, lo as int, hi as int),
        lo <= r <= hi,
{
    match lookup_last(es, key) {
        Some(v) => match parse_int(v.as_str(), true, lo, hi) {
            Some(x) => x,
            None => 0,
        },
        None => 0,
    }
}

fn i32_field_of(es: &Vec<(String, String)>, key: &str) -> (r: i32)
    ensures
        r as int == i32_field(entry_views(es@), key@),
{
    int_field_of(es, key, i32::MIN as i64, i32::MAX as i64) as i32
}

fn float_field_of(es: &Vec<(String, String)>, key: &str) -> (r: FloatText)
    ensures
        r@ == float_field(entry_views(es@), key@),
        r.wf(),
{
    match lookup_last(es, key) {
        Some(v) => FloatText::parse_or_zero(v.as_str()),
        None => FloatText::zero(),
    }
}

/// Decodes a summary message. Never fails: unknown keys are skipped, and a
/// field whose key is absent or whose value does not read holds its default.
pub fn parse_summary_data(raw_summary_message: &str) -> (r: APISummary)
    ensures
        r@ == summary_model(raw_summary_message@),
        r.wf(),
{
    let body = strip_markers_text(raw_summary_message);
    let terms = split_text(body, ';');
    let es = entries_of(&terms);
    assert(entry_views(es@) == summary_entries(raw_summary_message@));
    APISummary {
        name: text_field_of(&es, "NAME"),
        version: text_field_of(&es, "VER"),
        api: text_field_of(&es, "API"),
        algo: text_field_of(&es, "ALGO"),
        cpu_count: i32_field_of(&es, "CPUS"),
        url: text_field_of(&es, "URL"),
        hs_per_sec: float_field_of(&es, "HS"),
        khs_per_sec: float_field_of(&es, "KHS"),
        accepted_shares: i32_field_of(&es, "ACC"),
        rejected_shares: i32_field_of(&es, "REJ"),
        solutions_found: i32_field_of(&es, "SOL"),
        earnings: float_field_of(&es, "ACCMN"),
        difficulty: float_field_of(&es, "DIFF"),
        temperature: float_field_of(&es, "TEMP"),
        fan: i32_field_of(&es, "FAN"),
        frequency: i32_field_of(&es, "FREQ"),
        uptime: i32_field_of(&es, "UPTIME"),
        timestamp: int_field_of(&es, "TS", i64::MIN, i64::MAX),
    }
}

/// Closing a message with `|` and then `%` changes nothing it decodes to,
/// where the message does not already end in one of them.
pub proof fn lemma_trailing_markers(s: Seq<char>)
    requires
        s.len() == 0 || (s.last() != '|' && s.last() != '%'),
    ensures
        summary_model(s + seq!['|', '%']) == summary_model(s),
{
    let t = s + seq!['|', '%'];
    assert(t.last() == '%');
    let a = t.drop_last();
    assert(a.last() == '|');
    assert(a.drop_last() =~= s);
    assert(strip_markers(t) == s);
    assert(strip_markers(s) == s);
}

proof fn lemma_absent_from_blank(key: Seq<char>)
    requires
        key.len() > 0,
    ensures
        last_value(seq![(Seq::<char>::empty(), Seq::<char>::empty())], key) is None,
{
    let es = seq![(Seq::<char>::empty(), Seq::<char>::empty())];
    assert(es.last().0 != key);
    assert(es.drop_last() =~= Seq::<(Seq<char>, Seq<char>)>::empty());
    assert(last_value(es.drop_last(), key) is None);
}

/// The empty message decodes to the record with every field at its default.
pub proof fn lemma_empty_message()
    ensures
        summary_model(Seq::empty()) == default_model(),
{
    let e = Seq::<char>::empty();
    assert(strip_markers(e) == e);
    assert(split_on(e, ';') == seq![e]);
    let es = summary_entries(e);
    assert(es =~= seq![(e, e)]);
    assert(es.drop_last() =~= Seq::<(Seq<char>, Seq<char>)>::empty());
    reveal_strlit("NAME");
    lemma_absent_from_blank("NAME"@);
    reveal_strlit("VER");
    lemma_absent_from_blank("VER"@);
    reveal_strlit("API");
    lemma_absent_from_blank("API"@);
    reveal_strlit("ALGO");
    lemma_absent_from_blank("ALGO"@);
    reveal_strlit("CPUS");
    lemma_absent_from_blank("CPUS"@);
    reveal_strlit("URL");
    lemma_absent_from_blank("URL"@);
    reveal_strlit("HS");
    lemma_absent_from_blank("HS"@);
    reveal_strlit("KHS");
    lemma_absent_from_blank("KHS"@);
    reveal_strlit("ACC");
    lemma_absent_from_blank("ACC"@);
    reveal_strlit("REJ");
    lemma_absent_from_blank("REJ"@);
    reveal_strlit("SOL");
    lemma_absent_from_blank("SOL"@);
    reveal_strlit("ACCMN");
    lemma_absent_from_blank("ACCMN"@);
    reveal_strlit("DIFF");
    lemma_absent_from_blank("DIFF"@);
    reveal_strlit("TEMP");
    lemma_absent_from_blank("TEMP"@);
    reveal_strlit("FAN");
    lemma_absent_from_blank("FAN"@);
    reveal_strlit("FREQ");
    lemma_absent_from_blank("FREQ"@);
    reveal_strlit("UPTIME");
    lemma_absent_from_blank("UPTIME"@);
    reveal_strlit("TS");
    lemma_absent_from_blank("TS"@);
}

/// A term with one key leaves the value found for every other key as it
/// was, whatever its own value holds.
pub proof fn lemma_other_keys_unaffected(
    es: Seq<(Seq<char>, Seq<char>)>,
    e: (Seq<char>, Seq<char>),
    key: Seq<char>,
)
    requires
        e.0 != key,
    ensures
        last_value(es.push(e), key) == last_value(es, key),
{
    assert(es.push(e).drop_last() =~= es);
}

/// Decoding is a function of the text alone: two records decoded from the
/// same message are equal.
pub proof fn lemma_decode_repeatable(s: Seq<char>, a: APISummary, b: APISummary)
    requires
        a@ == summary_model(s),
        b@ == summary_model(s),
    ensures
        a@ == b@,
{
}

} // verus!
