use android_test_activity::activity::{
    process_data, COMPLETION_REPLY, NATIVE_MESSAGE, ON_CREATE_MESSAGE,
};
use android_test_activity::report::test_report;
use android_test_activity::sequencer::{NextTest, TestSequencer};

#[test]
fn fixed_messages() {
    assert_eq!(ON_CREATE_MESSAGE, "Hello from Rust native onCreate!");
    assert_eq!(NATIVE_MESSAGE, "Message from Rust!");
    assert_eq!(COMPLETION_REPLY, "");
}

#[test]
fn process_data_doubles() {
    assert_eq!(process_data(0), 0);
    assert_eq!(process_data(21), 42);
    assert_eq!(process_data(-7), -14);
    assert_eq!(process_data(1_073_741_823), 2_147_483_646);
    assert_eq!(process_data(-1_073_741_824), i32::MIN);
}

#[test]
fn sequencer_starts_at_zero() {
    let sequencer = TestSequencer::new();
    assert_eq!(sequencer.next_index(), 0);
}

#[test]
fn sequencer_runs_table_in_order_then_finishes() {
    let mut sequencer = TestSequencer::new();
    assert_eq!(sequencer.advance(3), NextTest::Run(0));
    assert_eq!(sequencer.advance(3), NextTest::Run(1));
    assert_eq!(sequencer.advance(3), NextTest::Run(2));
    assert_eq!(sequencer.advance(3), NextTest::Finished);
    assert_eq!(sequencer.advance(3), NextTest::Finished);
    assert_eq!(sequencer.next_index(), 5);
}

#[test]
fn sequencer_with_empty_table_finishes_at_once() {
    let mut sequencer = TestSequencer::new();
    assert_eq!(sequencer.advance(0), NextTest::Finished);
    assert_eq!(sequencer.advance(0), NextTest::Finished);
    assert_eq!(sequencer.next_index(), 2);
}

#[test]
fn sequencer_counter_wraps_like_fetch_add() {
    let mut sequencer = TestSequencer::new();
    let mut calls: usize = 0;
    while calls < 10 {
        sequencer.advance(4);
        calls += 1;
    }
    assert_eq!(sequencer.next_index(), 10);
    assert_eq!(sequencer.advance(usize::MAX), NextTest::Run(10));
}

#[test]
fn report_of_passed_test() {
    let outcome: Result<String, String> = Ok("API level 30".to_string());
    assert_eq!(
        test_report(0, "sdk_os_build", &outcome),
        "[0] sdk_os_build: API level 30"
    );
}

#[test]
fn report_of_failed_test() {
    let outcome: Result<String, String> = Err("JavaException".to_string());
    assert_eq!(
        test_report(3, "sdk_net_uri", &outcome),
        "[3] sdk_net_uri: ERROR - JavaException"
    );
}

#[test]
fn report_writes_position_in_decimal() {
    let outcome: Result<String, String> = Ok(String::new());
    assert_eq!(test_report(10, "t", &outcome), "[10] t: ");
    assert_eq!(test_report(907, "t", &outcome), "[907] t: ");
    assert_eq!(
        test_report(usize::MAX, "t", &outcome),
        format!("[{}] t: ", usize::MAX)
    );
}

#[test]
fn report_matches_format_for_many_positions() {
    let outcome: Result<String, String> = Err("e".to_string());
    let mut index: usize = 0;
    while index < 2000 {
        assert_eq!(
            test_report(index, "name", &outcome),
            format!("[{}] {}: ERROR - {}", index, "name", "e")
        );
        index += 1;
    }
}

#[test]
fn report_for_sequenced_call_names_its_position() {
    let mut sequencer = TestSequencer::new();
    let names = ["sdk_util_time_utils", "sdk_os_build"];
    let mut lines: Vec<String> = Vec::new();
    while let NextTest::Run(index) = sequencer.advance(names.len()) {
        lines.push(test_report(index, names[index], &Ok("ok".to_string())));
    }
    assert_eq!(
        lines,
        vec![
            "[0] sdk_util_time_utils: ok".to_string(),
            "[1] sdk_os_build: ok".to_string()
        ]
    );
}
