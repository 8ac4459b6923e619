use scrawl::layout::Region;
use scrawl::message::{Chat, Message, Role};

fn chat_of(messages: Vec<(&str, Role)>) -> Chat {
    let mut chat = Chat::default();
    for (content, role) in messages {
        chat.push(Message::new(String::from(content), role));
    }
    chat
}

#[test]
fn empty_transcript_yields_no_regions() {
    let chat = Chat::default();
    assert_eq!(chat.layout(80, 24), Vec::new());
}

#[test]
fn single_empty_user_message_in_a_large_viewport() {
    // An empty message wraps to one row, plus the two border rows.
    let chat = chat_of(vec![("", Role::User)]);
    let regions = chat.layout(80, 24);
    assert_eq!(
        regions,
        vec![Region { index: 0, x: 6, y: 21, width: 74, height: 3, crop_lines: 0 }]
    );
    assert!(regions[0].draws_top_border());
}

#[test]
fn narrow_viewport_shows_only_the_newest_message() {
    // The newest message is anchored to the bottom of the four rows; the
    // row of padding above it uses up the rest, so the older messages
    // yield no regions at all.
    let chat = chat_of(vec![
        ("hi", Role::User),
        ("hello there", Role::Model),
        ("", Role::User),
    ]);
    let regions = chat.layout(20, 4);
    assert_eq!(regions.len(), 1);
    assert_eq!(
        regions[0],
        Region { index: 2, x: 6, y: 1, width: 14, height: 3, crop_lines: 0 }
    );
}

#[test]
fn tall_message_is_cropped_to_the_viewport() {
    // 384 characters at 8 columns of text width wrap to 48 rows; with the
    // two border rows the message is 50 rows tall. In a viewport of height
    // 10 it is emitted once, fully anchored, with 40 rows hidden on top.
    let content = "a".repeat(384);
    let mut chat = Chat::default();
    chat.push(Message::new(content, Role::Model));
    let regions = chat.layout(10, 10);
    assert_eq!(regions.len(), 1);
    assert_eq!(
        regions[0],
        Region { index: 0, x: 0, y: 0, width: 10, height: 10, crop_lines: 40 }
    );
    assert!(!regions[0].draws_top_border());
}

#[test]
fn height_counts_wrapped_rows_and_borders() {
    let m = Message::new(String::from("hello world"), Role::Model);
    // Eleven characters fit on one row when the box leaves 11 columns of
    // text width, so the box is that row plus two border rows.
    assert_eq!(m.height(13), 3);
    // One column less and the text wraps onto a second row.
    assert_eq!(m.height(12), 4);
}

#[test]
fn width_and_left_pad_follow_the_role() {
    let user = Message::new(String::from("hi"), Role::User);
    let model = Message::new(String::from("hi"), Role::Model);
    assert_eq!(user.left_pad(), 6);
    assert_eq!(model.left_pad(), 0);
    assert_eq!(user.width(80), 74);
    assert_eq!(model.width(80), 80);
    // Narrower than the indentation: the width saturates at zero.
    assert_eq!(user.width(4), 0);
}

#[test]
fn stacked_messages_fill_upward_from_the_bottom() {
    let chat = chat_of(vec![("hi", Role::Model), ("ok", Role::User)]);
    let regions = chat.layout(80, 24);
    assert_eq!(
        regions,
        vec![
            Region { index: 1, x: 6, y: 21, width: 74, height: 3, crop_lines: 0 },
            Region { index: 0, x: 0, y: 17, width: 80, height: 3, crop_lines: 0 },
        ]
    );
}

#[test]
fn newest_region_always_touches_the_bottom() {
    let chat = chat_of(vec![("hi", Role::User), ("hello there", Role::Model)]);
    for viewport_height in [1u16, 2, 3, 5, 24] {
        let regions = chat.layout(30, viewport_height);
        assert!(!regions.is_empty());
        assert_eq!(
            regions[0].y + regions[0].height,
            viewport_height as usize
        );
        assert_eq!(regions[0].index, 1);
    }
}

#[test]
fn crop_never_exceeds_the_full_height() {
    let content = "a".repeat(100);
    let chat = chat_of(vec![("hi", Role::User), (&content, Role::Model)]);
    for viewport_height in [1u16, 4, 9, 40] {
        let regions = chat.layout(12, viewport_height);
        for region in &regions {
            let msg = &chat.messages()[region.index];
            let full = msg.height(msg.width(12));
            assert!(region.crop_lines <= full);
            assert_eq!(region.height, full - region.crop_lines);
        }
    }
}

#[test]
fn layout_is_a_pure_function_of_its_inputs() {
    let chat = chat_of(vec![
        ("hi", Role::User),
        ("hello there", Role::Model),
        ("ok", Role::User),
    ]);
    assert_eq!(chat.layout(40, 12), chat.layout(40, 12));
    assert_eq!(chat.layout(7, 3), chat.layout(7, 3));
}

#[test]
fn taller_viewports_never_show_fewer_messages() {
    let chat = chat_of(vec![
        ("hi", Role::User),
        ("hello there", Role::Model),
        ("ok", Role::User),
        ("fine", Role::Model),
    ]);
    let mut previous = 0usize;
    for viewport_height in 1u16..40 {
        let visible = chat
            .layout(30, viewport_height)
            .iter()
            .filter(|region| region.height > 0)
            .count();
        assert!(visible >= previous);
        previous = visible;
    }
    // By the top of that range every message is visible.
    assert_eq!(previous, 4);
}
