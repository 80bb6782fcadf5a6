use horikawa::input::{InputBuffer, InputMode};
use horikawa::popup::{handle_popup_key, EditKey, PendingAction, PlaylistEntry, PopupMode, PopupResult, PopupState};

#[test]
fn typing_and_cursor_in_bytes() {
    let mut b = InputBuffer::new();
    assert!(b.is_empty());
    b.insert('h');
    b.insert('é');
    b.insert('!');
    assert_eq!(b.content(), "hé!");
    assert_eq!(b.cursor(), 4);
    assert_eq!(b.cursor_char_pos(), 3);
    b.move_left();
    assert_eq!(b.cursor(), 3);
    b.move_left();
    assert_eq!(b.cursor(), 1);
    assert!(!b.cursor_at_end());
    b.move_home();
    assert_eq!(b.cursor(), 0);
    b.move_left();
    assert_eq!(b.cursor(), 0);
    b.move_end();
    assert!(b.cursor_at_end());
    b.move_right();
    assert_eq!(b.cursor_char_pos(), 3);
    assert_eq!(InputMode::default(), InputMode::Normal);
}

#[test]
fn insert_then_backspace_restores() {
    let mut b = InputBuffer::new();
    b.insert_str("abc");
    b.move_left();
    b.insert('X');
    assert_eq!(b.content(), "abXc");
    b.backspace();
    assert_eq!(b.content(), "abc");
    assert_eq!(b.cursor_char_pos(), 2);
}

#[test]
fn delete_and_backspace_at_edges() {
    let mut b = InputBuffer::new();
    b.insert_str("ab");
    b.delete();
    assert_eq!(b.content(), "ab");
    b.move_home();
    b.backspace();
    assert_eq!(b.content(), "ab");
    b.delete();
    assert_eq!(b.content(), "b");
    b.clear();
    assert!(b.is_empty());
    assert_eq!(b.cursor(), 0);
}

#[test]
fn insert_str_in_the_middle() {
    let mut b = InputBuffer::new();
    b.insert_str("ad");
    b.move_left();
    b.insert_str("bc");
    assert_eq!(b.content(), "abcd");
    assert_eq!(b.cursor_char_pos(), 3);
}

#[test]
fn input_popup_edits_and_confirms() {
    let mut p = PopupState::new_input("Name".to_string(), "mix".to_string(), PendingAction::SaveM3uFromPlaylist);
    assert!(!p.is_info);
    assert!(matches!(handle_popup_key(&mut p, EditKey::Backspace), PopupResult::StillActive));
    assert!(matches!(handle_popup_key(&mut p, EditKey::Char('é')), PopupResult::StillActive));
    assert!(matches!(handle_popup_key(&mut p, EditKey::Home), PopupResult::StillActive));
    assert!(matches!(handle_popup_key(&mut p, EditKey::Delete), PopupResult::StillActive));
    match &p.mode {
        PopupMode::Input { buffer, cursor, .. } => {
            assert_eq!(buffer, "ié");
            assert_eq!(*cursor, 0);
        }
        _ => panic!("not an input popup"),
    }
    match handle_popup_key(&mut p, EditKey::Enter) {
        PopupResult::Confirmed(Some(t)) => assert_eq!(t, "ié"),
        _ => panic!("not confirmed"),
    }
    assert!(matches!(handle_popup_key(&mut p, EditKey::Esc), PopupResult::Cancelled));
}

#[test]
fn confirm_popup_keys() {
    let entry = PlaylistEntry::M3u("old".to_string());
    assert_eq!(entry.name(), "old");
    assert_eq!(PlaylistEntry::DirPl("d".to_string()).name(), "d");
    let mut p = PopupState::new_confirm("Delete".to_string(), "Sure?".to_string(), PendingAction::DeletePlaylist(entry));
    assert!(matches!(handle_popup_key(&mut p, EditKey::Char('y')), PopupResult::Confirmed(None)));
    assert!(matches!(handle_popup_key(&mut p, EditKey::Enter), PopupResult::Confirmed(None)));
    assert!(matches!(handle_popup_key(&mut p, EditKey::Char('N')), PopupResult::Cancelled));
    assert!(matches!(handle_popup_key(&mut p, EditKey::Char('x')), PopupResult::StillActive));
    let tall = PopupState::new_confirm_tall("Shortcuts".to_string(), "text".to_string(), PendingAction::NoAction, 12);
    assert!(tall.is_info);
    assert_eq!(tall.preferred_height, 12);
}

#[test]
fn backspace_undoes_insert() {
    for c in ['x', 'é', '中', '🎵'] {
        let mut b = InputBuffer::new();
        b.insert_str("añb");
        b.move_left();
        let before = b.content().to_string();
        let k = b.cursor();
        b.insert(c);
        assert_eq!(b.cursor(), k + c.len_utf8());
        b.backspace();
        assert_eq!(b.content(), before);
        assert_eq!(b.cursor(), k);
    }
    let mut b = InputBuffer::new();
    b.insert_str("ab");
    b.move_home();
    b.backspace();
    assert_eq!(b.content(), "ab");
    assert_eq!(b.cursor(), 0);
}

#[test]
fn insert_str_is_typing_each_char() {
    let mut a = InputBuffer::new();
    a.insert_str("héllo");
    a.move_left();
    a.move_left();
    let mut b = InputBuffer::new();
    b.insert_str("héllo");
    b.move_left();
    b.move_left();
    let k = a.cursor();
    let old = a.content().to_string();
    let s = "wö🎵";
    a.insert_str(s);
    for ch in s.chars() {
        b.insert(ch);
    }
    assert_eq!(a.content(), b.content());
    assert_eq!(a.cursor(), b.cursor());
    assert_eq!(a.content(), format!("{}{}{}", &old[..k], s, &old[k..]));
    assert_eq!(a.cursor(), k + s.len());
}
