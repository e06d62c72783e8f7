use std::str::FromStr;

use tokensmith::cli::{parse_duration, InstallTarget, Task};
use tokensmith::profiles::Mode;

#[test]
fn mode_mapping() {
    assert_eq!(Mode::Fast.context_targets()[0], 4096);
    assert_eq!(Mode::Balanced.quantization_preferences()[0], "q5_k_m");
    assert_eq!(Mode::Quality.context_targets()[0], 32768);
}

#[test]
fn mode_tables() {
    assert_eq!(Mode::Fast.quantization_preferences(), vec!["q4_k_m", "q5_k_m", "q8_0"]);
    assert_eq!(Mode::Quality.quantization_preferences(), vec!["q8_0", "q6_k", "q5_k_m"]);
    assert_eq!(Mode::Balanced.context_targets(), vec![16384, 8192, 4096]);
    assert_eq!(Mode::Quality.context_targets(), vec![32768, 16384, 8192, 4096]);
    assert_eq!(Mode::Fast.context_targets(), vec![4096, 2048]);
}

#[test]
fn mode_names_round_trip() {
    for m in [Mode::Fast, Mode::Balanced, Mode::Quality] {
        assert_eq!(Mode::from_str(m.as_str()), Ok(m));
    }
    assert_eq!(Mode::from_str("turbo"), Err("invalid mode: turbo".to_string()));
}

#[test]
fn task_names_round_trip() {
    for t in [Task::Code, Task::Chat] {
        assert_eq!(Task::from_str(t.as_str()), Ok(t));
        assert_eq!(t.to_string(), t.as_str().to_string());
    }
    assert_eq!(Task::Code.to_string(), "code");
    assert_eq!(Task::parse("vision"), Err("unsupported task: vision".to_string()));
    assert_eq!(InstallTarget::LlamaCpp, InstallTarget::LlamaCpp);
}

#[test]
fn durations_in_seconds_and_milliseconds() {
    assert_eq!(parse_duration("5s"), Ok(std::time::Duration::from_secs(5)));
    assert_eq!(parse_duration("250ms"), Ok(std::time::Duration::from_millis(250)));
    assert_eq!(parse_duration("1500ms"), Ok(std::time::Duration::from_millis(1500)));
    assert_eq!(parse_duration("0s"), Ok(std::time::Duration::from_secs(0)));
    assert_eq!(parse_duration("+7s"), Ok(std::time::Duration::from_secs(7)));
}

#[test]
fn durations_refused() {
    assert_eq!(parse_duration("5"), Err("duration must end with 's' or 'ms'".to_string()));
    assert_eq!(parse_duration("5m"), Err("duration must end with 's' or 'ms'".to_string()));
    assert_eq!(parse_duration(""), Err("duration must end with 's' or 'ms'".to_string()));
    assert_eq!(parse_duration("s"), Err("cannot parse integer from empty string".to_string()));
    assert_eq!(parse_duration("ms"), Err("cannot parse integer from empty string".to_string()));
    assert_eq!(parse_duration("1.5s"), Err("invalid digit found in string".to_string()));
    assert_eq!(parse_duration("-1s"), Err("invalid digit found in string".to_string()));
    assert_eq!(parse_duration("+s"), Err("invalid digit found in string".to_string()));
    assert_eq!(
        parse_duration("18446744073709551616s"),
        Err("number too large to fit in target type".to_string())
    );
}

#[test]
fn duration_errors_match_std_parse() {
    for s in ["", "x", "-1", "+", "18446744073709551616", "12a"] {
        let ours = parse_duration(&format!("{s}s")).unwrap_err();
        let std_err = s.parse::<u64>().unwrap_err().to_string();
        assert_eq!(ours, std_err);
    }
}
