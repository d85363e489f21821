use tim_code::api::CallAbility;
use tim_code::api::CallAbilityOutcome;
use tim_code::api::EventData;
use tim_code::api::EventMetadata;
use tim_code::api::Message;
use tim_code::api::SpaceEvent;
use tim_code::api::Timestamp;
use tim_code::api::Timite;
use tim_code::app::event_millis;
use tim_code::app::normalize_line_endings;
use tim_code::app::App;
use tim_code::app::InputMode;
use tim_code::app::TimelineItem;
use tim_code::lines::byte_index_in;
use tim_code::lines::line_col_in;
use tim_code::lines::line_len_in;
use tim_code::lines::line_start_in;
use tim_code::lines::lines_in;
use tim_code::lines::next_newline;

fn app_with(input: &str, cursor: usize) -> App {
    let mut app = App::new(1, "me".into());
    app.input = input.into();
    app.cursor_position = cursor;
    app
}

fn event(data: EventData) -> SpaceEvent {
    SpaceEvent {
        metadata: EventMetadata { id: 1, emitted_at: Timestamp { seconds: 2, nanos: 345_678_901 } },
        data,
    }
}

#[test]
fn a_new_app_is_running_in_normal_mode() {
    let mut app = App::new(7, "me".into());
    assert!(app.running);
    assert_eq!(app.input_mode, InputMode::Normal);
    assert_eq!(app.input, "");
    assert_eq!(app.cursor_position, 0);
    assert_eq!(app.timite_nick_cache.get(&7), Some(&"me".to_string()));
    assert!(!app.show_help);
    app.toggle_help();
    assert!(app.show_help);
    app.toggle_help();
    assert!(!app.show_help);
    app.enter_insert_mode();
    assert_eq!(app.input_mode, InputMode::Insert);
    app.enter_normal_mode();
    assert_eq!(app.input_mode, InputMode::Normal);
    app.quit();
    assert!(!app.running);
}

#[test]
fn typing_and_deleting_move_the_cursor() {
    let mut app = App::new(1, "me".into());
    for c in "héy".chars() {
        app.enter_char(c);
    }
    assert_eq!(app.input, "héy");
    assert_eq!(app.cursor_position, 3);
    app.move_cursor_left();
    app.move_cursor_left();
    assert_eq!(app.cursor_position, 1);
    assert_eq!(app.byte_index(), 1);
    app.enter_char('X');
    assert_eq!(app.input, "hXéy");
    assert_eq!(app.cursor_position, 2);
    app.move_cursor_right();
    assert_eq!(app.byte_index(), 4);
    app.delete_char();
    assert_eq!(app.input, "hXy");
    assert_eq!(app.cursor_position, 2);
    app.move_cursor_right();
    app.move_cursor_right();
    assert_eq!(app.cursor_position, 3);
    app.cursor_position = 0;
    app.delete_char();
    assert_eq!(app.input, "hXy");
    app.move_cursor_left();
    assert_eq!(app.cursor_position, 0);
    app.cursor_position = 50;
    app.delete_char();
    assert_eq!(app.input, "hXy");
    assert_eq!(app.cursor_position, 3);
    assert_eq!(app.clamp_cursor(100), 3);
    assert_eq!(app.take_input(), "hXy");
    assert_eq!(app.input, "");
    assert_eq!(app.cursor_position, 0);
}

#[test]
fn the_cursor_moves_between_lines() {
    let mut app = app_with("ab\ncdef\ng", 6);
    assert_eq!(app.input_line_count(), 3);
    assert_eq!(app.cursor_line_col(), (1, 3));
    assert_eq!(app.line_start(0), 0);
    assert_eq!(app.line_start(1), 3);
    assert_eq!(app.line_start(2), 8);
    assert_eq!(app.line_start(3), 9);
    assert_eq!(app.line_len(0), 2);
    assert_eq!(app.line_len(1), 4);
    assert_eq!(app.line_len(2), 1);
    assert_eq!(app.line_len(3), 0);
    app.move_cursor_up();
    assert_eq!(app.cursor_position, 2);
    app.move_cursor_up();
    assert_eq!(app.cursor_position, 2);
    app.move_cursor_down();
    assert_eq!(app.cursor_position, 5);
    app.cursor_position = 7;
    app.move_cursor_down();
    assert_eq!(app.cursor_position, 9);
    app.move_cursor_down();
    assert_eq!(app.cursor_position, 9);
    assert_eq!(app_with("", 0).input_line_count(), 1);
    assert_eq!(app_with("a\n", 0).input_line_count(), 2);
}

#[test]
fn pasted_line_endings_become_line_feeds() {
    assert_eq!(normalize_line_endings("a\r\nb\rc\n\r"), "a\nb\nc\n\n".chars().collect::<Vec<_>>());
    let mut app = app_with("xy", 1);
    app.paste("1\r\n2");
    assert_eq!(app.input, "x1\n2y");
    assert_eq!(app.cursor_position, 4);
    app.paste("");
    assert_eq!(app.input, "x1\n2y");
    assert_eq!(app.cursor_position, 4);
    let mut late = app_with("xy", 40);
    late.paste("z");
    assert_eq!(late.input, "xyz");
    assert_eq!(late.cursor_position, 3);
}

#[test]
fn lines_are_counted_as_a_reader_of_lines_counts_them() {
    for text in ["", "a", "a\n", "a\nb", "\n", "\n\n", "a\r\nb\r", "a\n\nb\n", "\r\n"] {
        assert_eq!(lines_in(text), text.lines().count(), "{:?}", text);
        for k in 0..4 {
            let want = text.lines().nth(k).map(|l| l.chars().count()).unwrap_or(0);
            assert_eq!(line_len_in(text, k), want, "{:?} line {}", text, k);
        }
    }
    assert_eq!(next_newline("ab\ncd", 0), 2);
    assert_eq!(next_newline("ab\ncd", 3), 5);
    assert_eq!(next_newline("ab\ncd", 9), 5);
    assert_eq!(line_start_in("a\nb\n", 2), 4);
    assert_eq!(line_col_in("a\nbc", 99), (1, 2));
    assert_eq!(byte_index_in("héé€😀x", 5), 1 + 2 + 2 + 3 + 4);
    assert_eq!(byte_index_in("hé", 9), 3);
}

#[test]
fn the_timeline_scrolls_within_its_lines() {
    let mut app = App::new(1, "me".into());
    assert_eq!(app.timeline_line_count(), 0);
    app.scroll_down();
    assert_eq!(app.timeline_scroll, 0);
    app.handle_space_event(event(EventData::NewMessage(Message {
        id: 1,
        sender_id: 1,
        content: "one\ntwo\nthree".into(),
    })));
    app.handle_space_event(event(EventData::NewMessage(Message {
        id: 2,
        sender_id: 1,
        content: "".into(),
    })));
    app.handle_space_event(event(EventData::TimiteConnected(Timite { id: 5, nick: "five".into() })));
    assert_eq!(app.timeline_line_count(), 5);
    app.scroll_down();
    app.scroll_down();
    assert_eq!(app.timeline_scroll, 2);
    app.scroll_to_bottom();
    assert_eq!(app.timeline_scroll, 4);
    app.scroll_down();
    assert_eq!(app.timeline_scroll, 4);
    app.scroll_up();
    assert_eq!(app.timeline_scroll, 3);
    app.timeline_scroll = 0;
    app.scroll_up();
    assert_eq!(app.timeline_scroll, 0);
}

#[test]
fn events_become_timeline_items() {
    let mut app = App::new(1, "me".into());
    app.add_timite_to_cache(&Timite { id: 2, nick: "bob".into() });
    app.handle_space_event(event(EventData::NewMessage(Message {
        id: 1,
        sender_id: 2,
        content: "hi".into(),
    })));
    app.handle_space_event(event(EventData::NewMessage(Message {
        id: 2,
        sender_id: 44,
        content: "yo".into(),
    })));
    app.handle_space_event(event(EventData::TimiteConnected(Timite {
        id: 44,
        nick: "zed".into(),
    })));
    app.handle_space_event(event(EventData::CallAbility(CallAbility {
        call_ability_id: 3,
        sender_id: 44,
        timite_id: 2,
        name: "echo".into(),
        payload: "p".into(),
    })));
    app.handle_space_event(event(EventData::CallAbilityOutcome(CallAbilityOutcome {
        call_ability_id: 3,
        payload: None,
        error: Some("boom".into()),
    })));
    app.handle_space_event(event(EventData::TimiteDisconnected(Timite {
        id: 44,
        nick: "zed".into(),
    })));
    let shown: Vec<String> = app.timeline.iter().map(|item| format!("{:?}", item)).collect();
    assert_eq!(
        shown,
        vec![
            "Message { sender: \"bob\", content: \"hi\", timestamp: 2345 }",
            "Message { sender: \"user-44\", content: \"yo\", timestamp: 2345 }",
            "TimiteConnected { nick: \"zed\", timestamp: 2345 }",
            "AbilityCall { caller: \"zed\", ability_name: \"echo\", timestamp: 2345 }",
            "AbilityOutcome { ability_name: \"call-3\", success: false, timestamp: 2345 }",
            "TimiteDisconnected { nick: \"zed\", timestamp: 2345 }",
        ]
    );
    assert!(app.online_timites.is_empty());
    assert_eq!(app.timite_nick_cache.get(&44), Some(&"zed".to_string()));
    assert_eq!(app.timeline[0].timestamp(), 2345);
    assert_eq!(app.timeline[0].line_count(), 1);
    assert_eq!(app.display_name(2), "bob");
    assert_eq!(app.display_name(3), "user-3");
    app.set_abilities(Vec::new());
    assert!(app.abilities.is_empty());
    let item = TimelineItem::TimiteConnected { nick: "n".into(), timestamp: 5 };
    assert_eq!(item.clone().timestamp(), 5);
}

#[test]
fn event_time_in_milliseconds() {
    assert_eq!(event_millis(&Timestamp { seconds: 2, nanos: 345_678_901 }), 2345);
    assert_eq!(event_millis(&Timestamp { seconds: 0, nanos: 999_999 }), 0);
    assert_eq!(event_millis(&Timestamp { seconds: -1, nanos: 0 }), 0);
    assert_eq!(event_millis(&Timestamp { seconds: 1, nanos: -1 }), 0);
    assert_eq!(event_millis(&Timestamp { seconds: i64::MAX, nanos: 0 }), 0);
    assert_eq!(
        event_millis(&Timestamp { seconds: 1_700_000_000, nanos: 1_000_000 }),
        1_700_000_000_001
    );
}
