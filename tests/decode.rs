use miner_api::{parse_summary_data, parse_thread_data, unit_multiplier, APISummary, FloatText};

fn num(x: &FloatText) -> f64 {
    x.as_str().parse::<f64>().unwrap()
}

#[test]
fn unit_table_multipliers() {
    assert_eq!(unit_multiplier("k/s"), 1_000);
    assert_eq!(unit_multiplier("M/s"), 1_000_000);
    assert_eq!(unit_multiplier("G/s"), 1_000_000_000);
    assert_eq!(unit_multiplier("T/s"), 1_000_000_000_000);
    assert_eq!(unit_multiplier("P/s"), 1_000_000_000_000_000);
    assert_eq!(unit_multiplier("E/s"), 1_000_000_000_000_000_000);
    assert_eq!(unit_multiplier("Z/s"), 1_000_000_000_000_000_000_000);
    assert_eq!(unit_multiplier("Y/s"), 1_000_000_000_000_000_000_000_000);
    assert_eq!(unit_multiplier("Y/s") as f64, 1e24);
}

#[test]
fn unit_outside_table_is_one() {
    assert_eq!(unit_multiplier("H/s"), 1);
    assert_eq!(unit_multiplier(""), 1);
    assert_eq!(unit_multiplier("xyz"), 1);
    assert_eq!(unit_multiplier("K/s"), 1);
    assert_eq!(unit_multiplier("k/s "), 1);
}

#[test]
fn summary_three_keys() {
    let r = parse_summary_data("NAME=x;KHS=12.5;ACC=3|");
    assert_eq!(r.name, "x");
    assert_eq!(num(&r.khs_per_sec), 12.5);
    assert_eq!(r.accepted_shares, 3);
    let mut expected = APISummary::default();
    expected.name = "x".to_string();
    expected.khs_per_sec = FloatText::parse("12.5").unwrap();
    expected.accepted_shares = 3;
    assert_eq!(r, expected);
    assert_eq!(num(&r.hs_per_sec), 0.0);
    assert_eq!(r.version, "");
    assert_eq!(r.timestamp, 0);
}

#[test]
fn summary_both_trailing_markers() {
    assert_eq!(
        parse_summary_data("NAME=x;KHS=12.5|%"),
        parse_summary_data("NAME=x;KHS=12.5")
    );
}

#[test]
fn summary_markers_stripped_once() {
    let r = parse_summary_data("NAME=x||");
    assert_eq!(r.name, "x|");
    let r = parse_summary_data("NAME=x%%");
    assert_eq!(r.name, "x%");
    let r = parse_summary_data("NAME=x%|");
    assert_eq!(r.name, "x%");
}

#[test]
fn summary_empty_message() {
    let r = parse_summary_data("");
    assert_eq!(r, APISummary::default());
    assert_eq!(r.name, "");
    assert_eq!(r.cpu_count, 0);
    assert_eq!(num(&r.temperature), 0.0);
}

#[test]
fn summary_bad_number_is_local() {
    let r = parse_summary_data("KHS=notanumber");
    assert_eq!(num(&r.khs_per_sec), 0.0);
    let r = parse_summary_data("NAME=x;KHS=bad;ACC=5");
    assert_eq!(r.name, "x");
    assert_eq!(num(&r.khs_per_sec), 0.0);
    assert_eq!(r.accepted_shares, 5);
}

#[test]
fn summary_all_keys() {
    let r = parse_summary_data(
        "NAME=cpuminer;VER=2.5;API=1.9;ALGO=scrypt;CPUS=8;URL=stratum+tcp://pool:3333;HS=1500.5;\
         KHS=1.5005;ACC=42;REJ=2;SOL=1;ACCMN=0.0025;DIFF=64;TEMP=62.0;FAN=1200;FREQ=3400;\
         UPTIME=3600;TS=1700000000|",
    );
    assert_eq!(r.name, "cpuminer");
    assert_eq!(r.version, "2.5");
    assert_eq!(r.api, "1.9");
    assert_eq!(r.algo, "scrypt");
    assert_eq!(r.cpu_count, 8);
    assert_eq!(r.url, "stratum+tcp://pool:3333");
    assert_eq!(num(&r.hs_per_sec), 1500.5);
    assert_eq!(num(&r.khs_per_sec), 1.5005);
    assert_eq!(r.accepted_shares, 42);
    assert_eq!(r.rejected_shares, 2);
    assert_eq!(r.solutions_found, 1);
    assert_eq!(num(&r.earnings), 0.0025);
    assert_eq!(num(&r.difficulty), 64.0);
    assert_eq!(num(&r.temperature), 62.0);
    assert_eq!(r.fan, 1200);
    assert_eq!(r.frequency, 3400);
    assert_eq!(r.uptime, 3600);
    assert_eq!(r.timestamp, 1700000000);
}

#[test]
fn summary_duplicate_key_last_wins() {
    let r = parse_summary_data("ACC=5;NAME=a;ACC=7;NAME=b");
    assert_eq!(r.accepted_shares, 7);
    assert_eq!(r.name, "b");
    let r = parse_summary_data("ACC=5;ACC=bad");
    assert_eq!(r.accepted_shares, 0);
}

#[test]
fn summary_unknown_and_stray_terms() {
    let r = parse_summary_data(";;FOO=1;novalue;=7;ACC=4;name=y;");
    assert_eq!(r.accepted_shares, 4);
    assert_eq!(r.name, "");
    let mut expected = APISummary::default();
    expected.accepted_shares = 4;
    assert_eq!(r, expected);
}

#[test]
fn summary_value_trimmed_key_exact() {
    let r = parse_summary_data("NAME=  x y \t;ACC= 9 ");
    assert_eq!(r.name, "x y");
    assert_eq!(r.accepted_shares, 9);
    let r = parse_summary_data("NAME=\u{3000}x\u{a0}");
    assert_eq!(r.name, "x");
    let r = parse_summary_data(" NAME=x");
    assert_eq!(r.name, "");
}

#[test]
fn summary_first_equals_splits() {
    let r = parse_summary_data("URL=a=b");
    assert_eq!(r.url, "a=b");
}

#[test]
fn summary_integer_limits() {
    assert_eq!(parse_summary_data("ACC=2147483647").accepted_shares, i32::MAX);
    assert_eq!(parse_summary_data("ACC=-2147483648").accepted_shares, i32::MIN);
    assert_eq!(parse_summary_data("ACC=2147483648").accepted_shares, 0);
    assert_eq!(parse_summary_data("ACC=+7").accepted_shares, 7);
    assert_eq!(parse_summary_data("ACC=-").accepted_shares, 0);
    assert_eq!(parse_summary_data("ACC=").accepted_shares, 0);
    assert_eq!(parse_summary_data("ACC=1.5").accepted_shares, 0);
    assert_eq!(parse_summary_data("ACC=007").accepted_shares, 7);
    assert_eq!(parse_summary_data("TS=9223372036854775807").timestamp, i64::MAX);
    assert_eq!(parse_summary_data("TS=-9223372036854775808").timestamp, i64::MIN);
    assert_eq!(parse_summary_data("TS=9223372036854775808").timestamp, 0);
    assert_eq!(parse_summary_data("TS=99999999999999999999999").timestamp, 0);
}

#[test]
fn summary_float_literals() {
    assert_eq!(num(&parse_summary_data("KHS=1e3").khs_per_sec), 1000.0);
    assert_eq!(num(&parse_summary_data("KHS=2.5E-1").khs_per_sec), 0.25);
    assert_eq!(num(&parse_summary_data("KHS=.5").khs_per_sec), 0.5);
    assert_eq!(num(&parse_summary_data("KHS=5.").khs_per_sec), 5.0);
    assert_eq!(num(&parse_summary_data("KHS=-3").khs_per_sec), -3.0);
    assert!(num(&parse_summary_data("KHS=inf").khs_per_sec).is_infinite());
    assert!(num(&parse_summary_data("KHS=-Infinity").khs_per_sec).is_infinite());
    assert!(num(&parse_summary_data("KHS=NaN").khs_per_sec).is_nan());
    assert_eq!(num(&parse_summary_data("KHS=e5").khs_per_sec), 0.0);
    assert_eq!(num(&parse_summary_data("KHS=1e").khs_per_sec), 0.0);
    assert_eq!(num(&parse_summary_data("KHS=.").khs_per_sec), 0.0);
    assert_eq!(num(&parse_summary_data("KHS=1.2.3").khs_per_sec), 0.0);
    assert_eq!(num(&parse_summary_data("KHS=infinit").khs_per_sec), 0.0);
    assert_eq!(parse_summary_data("KHS=12.50").khs_per_sec.as_str(), "12.50");
}

#[test]
fn float_text_agrees_with_std() {
    let cases = [
        "0", "1", "-1", "+1", "1.", ".1", "1.5e10", "1.5E+10", "1e-3", "inf", "INF", "+infinity",
        "nan", "NaN", "", "-", "+", ".", "e", "1e", "1e+", "1..2", "1e1.5", "0x10", "1_000", " 1",
        "infinityx", "in", "٣",
    ];
    for c in cases {
        assert_eq!(FloatText::parse(c).is_some(), c.parse::<f64>().is_ok(), "case {:?}", c);
        assert_eq!(FloatText::parse(c).is_some(), c.parse::<f32>().is_ok(), "case {:?}", c);
    }
    assert_eq!(FloatText::zero().as_str(), "0");
}

#[test]
fn threads_two_workers_in_order() {
    let r = parse_thread_data("CPU=0;k/s=12.5|CPU=1;M/s=1.2|");
    assert_eq!(r.thread_stats.len(), 2);
    assert_eq!(r.thread_stats[0].cpu_id, 0);
    assert_eq!(num(&r.thread_stats[0].hashrate), 12.5);
    assert_eq!(r.thread_stats[0].units, "k/s");
    assert_eq!(r.thread_stats[1].cpu_id, 1);
    assert_eq!(num(&r.thread_stats[1].hashrate), 1.2);
    assert_eq!(r.thread_stats[1].units, "M/s");
}

#[test]
fn threads_order_kept_ids_unsorted() {
    let r = parse_thread_data("CPU=3;k/s=1|CPU=1;k/s=2|CPU=3;G/s=4");
    let ids: Vec<u32> = r.thread_stats.iter().map(|t| t.cpu_id).collect();
    assert_eq!(ids, vec![3, 1, 3]);
    assert_eq!(r.thread_stats[2].units, "G/s");
    assert_eq!(num(&r.thread_stats[2].hashrate), 4.0);
}

#[test]
fn threads_bad_numbers_default() {
    let r = parse_thread_data("CPU=abc;k/s=zz|CPU=2;k/s=bad|CPU=x;M/s=3.5|");
    assert_eq!(r.thread_stats.len(), 3);
    assert_eq!(r.thread_stats[0].cpu_id, 0);
    assert_eq!(num(&r.thread_stats[0].hashrate), 0.0);
    assert_eq!(r.thread_stats[0].units, "k/s");
    assert_eq!(r.thread_stats[1].cpu_id, 2);
    assert_eq!(num(&r.thread_stats[1].hashrate), 0.0);
    assert_eq!(r.thread_stats[2].cpu_id, 0);
    assert_eq!(num(&r.thread_stats[2].hashrate), 3.5);
    assert_eq!(r.thread_stats[2].units, "M/s");
}

#[test]
fn threads_id_range() {
    let r = parse_thread_data("CPU=4294967295;k/s=1|CPU=4294967296;k/s=1|CPU=-1;k/s=1|CPU=+5;k/s=1");
    let ids: Vec<u32> = r.thread_stats.iter().map(|t| t.cpu_id).collect();
    assert_eq!(ids, vec![u32::MAX, 0, 0, 5]);
}

#[test]
fn threads_missing_parts() {
    let r = parse_thread_data("CPU=7|CPU=8;12.5|garbage|");
    assert_eq!(r.thread_stats.len(), 3);
    assert_eq!(r.thread_stats[0].cpu_id, 0);
    assert_eq!(r.thread_stats[0].units, "H/s");
    assert_eq!(num(&r.thread_stats[0].hashrate), 0.0);
    assert_eq!(r.thread_stats[1].cpu_id, 8);
    assert_eq!(r.thread_stats[1].units, "H/s");
    assert_eq!(num(&r.thread_stats[1].hashrate), 0.0);
    assert_eq!(r.thread_stats[2].cpu_id, 0);
    assert_eq!(r.thread_stats[2].units, "H/s");
}

#[test]
fn threads_empty_and_lone_terminator() {
    assert_eq!(parse_thread_data("").thread_stats.len(), 0);
    assert_eq!(parse_thread_data("|").thread_stats.len(), 0);
    assert_eq!(parse_thread_data("|"), parse_thread_data(""));
    let r = parse_thread_data("CPU=1;k/s=2|");
    assert_eq!(r, parse_thread_data("CPU=1;k/s=2"));
    let r = parse_thread_data("CPU=1;k/s=2||");
    assert_eq!(r.thread_stats.len(), 2);
    assert_eq!(r.thread_stats[1].cpu_id, 0);
    assert_eq!(r.thread_stats[1].units, "H/s");
    let r = parse_thread_data("CPU=1;k/s=2");
    assert_eq!(r.thread_stats.len(), 1);
    assert_eq!(r.thread_stats[0].cpu_id, 1);
}

#[test]
fn threads_scaled_rate() {
    let r = parse_thread_data("CPU=0;M/s=1.5|");
    let t = &r.thread_stats[0];
    assert_eq!(num(&t.hashrate) * unit_multiplier(&t.units) as f64, 1_500_000.0);
}

#[test]
fn decoding_is_repeatable() {
    let s = "NAME=x;KHS=12.5;ACC=3;TEMP=bad|%";
    assert_eq!(parse_summary_data(s), parse_summary_data(s));
    let t = "CPU=0;k/s=12.5|CPU=x;M/s=y|";
    assert_eq!(parse_thread_data(t), parse_thread_data(t));
}
