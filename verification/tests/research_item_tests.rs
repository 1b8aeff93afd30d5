use research_tracker::args::Args;
use research_tracker::report::ReportFilter;
use research_tracker::research_item::{Amount, ResearchItem};

#[test]
fn a_number_is_its_own_threshold() {
    assert_eq!(Amount::Number(5).as_i32(), 5);
    assert_eq!(Amount::Number(0).as_i32(), 0);
    assert_eq!(Amount::Number(-3).as_i32(), -3);
    assert_eq!(Amount::Number(i32::MAX).as_i32(), i32::MAX);
}

#[test]
fn a_remark_has_the_threshold_zero() {
    assert_eq!(Amount::Other(String::from("varies")).as_i32(), 0);
    assert_eq!(Amount::Other(String::from("100")).as_i32(), 0);
    assert_eq!(Amount::Other(String::new()).as_i32(), 0);
}

#[test]
fn amounts_are_shown_as_a_numeral_or_as_the_remark() {
    assert_eq!(Amount::Number(25).to_text(), "25");
    assert_eq!(Amount::Number(-1).to_text(), "-1");
    assert_eq!(Amount::Other(String::from("unknown")).to_text(), "unknown");
}

#[test]
fn an_item_holds_what_it_was_given() {
    let item = ResearchItem {
        id: 9,
        url: String::from("https://example.org/Wood"),
        name: String::from("Wood"),
        amount: Amount::Number(100),
    };
    assert_eq!(item.id, 9);
    assert_eq!(item.url, "https://example.org/Wood");
    assert_eq!(item.name, "Wood");
    assert_eq!(item.amount.as_i32(), 100);
}

#[test]
fn the_file_name_ends_in_the_ending_once() {
    let named = |name: &str| Args { player_name: String::from(name), missing: true, complete: false };
    assert_eq!(named("Alice").file_name(), "Alice.plr");
    assert_eq!(named("Alice.plr").file_name(), "Alice.plr");
    assert_eq!(named("Alice.plr.plr").file_name(), "Alice.plr");
    assert_eq!(named("").file_name(), ".plr");
    assert_eq!(named("saves/Bob").file_name(), "saves/Bob.plr");
}

#[test]
fn the_switches_make_the_filter() {
    let args = Args { player_name: String::from("Alice"), missing: true, complete: false };
    assert_eq!(args.filter(), ReportFilter { show_incomplete: true, show_complete: false });
    let args = Args { player_name: String::from("Alice"), missing: false, complete: true };
    assert_eq!(args.filter(), ReportFilter { show_incomplete: false, show_complete: true });
}
