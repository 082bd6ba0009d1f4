use rpass::cipher::{caesar, convert_key, vignere, KeyError};
use rpass::persist::{load, load_content, save_content};
use rpass::session::{parse_command, quit, Command, Session};
use rpass::store::{
    index, new_password, parse_index, password_at, remove_password, search, select_matches,
    IndexError, Password,
};

fn entry(service: &str, index: usize) -> Password {
    Password {
        service: service.to_string(),
        email: format!("{service}@example.com"),
        username: format!("{service}_user"),
        password: format!("{service}_pw"),
        index,
    }
}

fn s(text: &str) -> String {
    text.to_string()
}

#[test]
fn key_dog_gives_shifts() {
    assert_eq!(convert_key(&s("dog")), Ok(vec![3, 14, 6]));
}

#[test]
fn key_is_case_blind() {
    assert_eq!(convert_key(&s("DoG")), Ok(vec![3, 14, 6]));
}

#[test]
fn empty_passphrase_gives_empty_key() {
    assert_eq!(convert_key(&s("")), Ok(vec![]));
}

#[test]
fn key_with_digit_is_refused() {
    assert_eq!(convert_key(&s("dog1")), Err(KeyError::NotAlphabetic));
    assert_eq!(convert_key(&s("two words")), Err(KeyError::NotAlphabetic));
}

#[test]
fn dog_key_encrypts_a_to_d() {
    let key = convert_key(&s("dog")).unwrap();
    assert_eq!(caesar('a', key[0], true), 'd');
    assert_eq!(caesar('d', key[0], false), 'a');
    assert_eq!(vignere(&s("a"), &key, true), "d");
    assert_eq!(vignere(&s("d"), &key, false), "a");
}

#[test]
fn caesar_wraps_around() {
    assert_eq!(caesar('z', 1, true), 'a');
    assert_eq!(caesar('a', 1, false), 'z');
    assert_eq!(caesar('x', 25, true), 'w');
}

#[test]
fn caesar_keeps_other_characters() {
    assert_eq!(caesar('A', 5, true), 'A');
    assert_eq!(caesar('7', 5, true), '7');
    assert_eq!(caesar('\u{e9}', 5, false), '\u{e9}');
}

#[test]
fn key_position_counts_every_character() {
    let key = convert_key(&s("dog")).unwrap();
    // positions 0, 1, 2, 3 use shifts 3, 14, 6, 3; the space takes position 1
    assert_eq!(vignere(&s("a aa"), &key, true), "d gd");
}

#[test]
fn cipher_round_trip() {
    let key = convert_key(&s("Secret")).unwrap();
    let text = s("[\n  {\n    \"service\": \"mail\",\n    \"index\": 0\n  }\n] Zz 09 xyz");
    let encrypted = vignere(&text, &key, true);
    assert_ne!(encrypted, text);
    assert_eq!(vignere(&encrypted, &key, false), text);
}

#[test]
fn cipher_keeps_non_letters() {
    let key = convert_key(&s("key")).unwrap();
    let text = s("0123 {}[]\":, !?\n\t-+");
    assert_eq!(vignere(&text, &key, true), text);
    assert_eq!(vignere(&text, &key, false), text);
}

#[test]
fn index_sets_positions() {
    let entries = vec![entry("a", 7), entry("b", 7), entry("c", 0)];
    let r = index(entries);
    assert_eq!(r.len(), 3);
    for (i, p) in r.iter().enumerate() {
        assert_eq!(p.index, i);
    }
    assert_eq!(r[1].service, "b");
    assert_eq!(r[2].password, "c_pw");
}

#[test]
fn index_of_empty_store() {
    assert!(index(Vec::new()).is_empty());
}

#[test]
fn new_password_appends() {
    let r = new_password(vec![entry("a", 0)], s("web"), s("pw"), s("me"), s("me@x.org"));
    assert_eq!(r.len(), 2);
    assert_eq!(r[1].service, "web");
    assert_eq!(r[1].password, "pw");
    assert_eq!(r[1].username, "me");
    assert_eq!(r[1].email, "me@x.org");
    assert_eq!(r[1].index, 1);
}

#[test]
fn remove_at_length_is_refused() {
    let mut entries = index(vec![entry("a", 0), entry("b", 0)]);
    assert_eq!(remove_password(&mut entries, &s("2")).unwrap_err(), IndexError::OutOfRange);
    assert_eq!(entries.len(), 2);
}

#[test]
fn remove_negative_or_text_is_refused() {
    let mut entries = index(vec![entry("a", 0), entry("b", 0)]);
    assert_eq!(remove_password(&mut entries, &s("-1")).unwrap_err(), IndexError::Invalid);
    assert_eq!(remove_password(&mut entries, &s("one")).unwrap_err(), IndexError::Invalid);
    assert_eq!(remove_password(&mut entries, &s("")).unwrap_err(), IndexError::Invalid);
    assert_eq!(remove_password(&mut entries, &s(" 1")).unwrap_err(), IndexError::Invalid);
    assert_eq!(entries.len(), 2);
    assert_eq!(entries[0].service, "a");
}

#[test]
fn remove_in_range() {
    let mut entries = index(vec![entry("a", 0), entry("b", 0), entry("c", 0)]);
    let gone = remove_password(&mut entries, &s("1")).unwrap();
    assert_eq!(gone.service, "b");
    assert_eq!(entries.len(), 2);
    assert_eq!(entries[1].service, "c");
    let entries = index(entries);
    assert_eq!(entries[1].index, 1);
}

#[test]
fn parse_index_cases() {
    assert_eq!(parse_index(&s("0"), 3), Ok(0));
    assert_eq!(parse_index(&s("+2"), 3), Ok(2));
    assert_eq!(parse_index(&s("3"), 3), Err(IndexError::OutOfRange));
    assert_eq!(parse_index(&s("0"), 0), Err(IndexError::OutOfRange));
    assert_eq!(parse_index(&s("2x"), 3), Err(IndexError::Invalid));
    assert_eq!(parse_index(&s("+"), 3), Err(IndexError::Invalid));
    assert_eq!(parse_index(&s("99999999999999999999999"), 3), Err(IndexError::Invalid));
}

#[test]
fn password_at_gives_password() {
    let entries = index(vec![entry("a", 0), entry("b", 0)]);
    assert_eq!(password_at(&entries, &s("1")), Ok(s("b_pw")));
    assert_eq!(password_at(&entries, &s("2")), Err(IndexError::OutOfRange));
    assert_eq!(password_at(&entries, &s("x")), Err(IndexError::Invalid));
}

#[test]
fn search_ignores_case() {
    let entries = index(vec![entry("mail", 0)]);
    let found = search(&entries, &s("MAIL"));
    assert_eq!(found.len(), 1);
    assert_eq!(found[0].service, "mail");
    assert_eq!(search(&entries, &s("nomail")).len(), 0);
}

#[test]
fn search_keeps_order_and_copies() {
    let entries = index(vec![entry("Bank", 0), entry("mail", 0), entry("bank", 0)]);
    let found = search(&entries, &s("bAnK"));
    assert_eq!(found.len(), 2);
    assert_eq!(found[0].service, "Bank");
    assert_eq!(found[0].index, 0);
    assert_eq!(found[1].service, "bank");
    assert_eq!(found[1].index, 2);
    assert_eq!(entries.len(), 3);
}

#[test]
fn content_round_trip_with_key() {
    let key = convert_key(&s("dog")).unwrap();
    let json = s("[{\"service\": \"mail\", \"index\": 0}]");
    let stored = save_content(&json, &key);
    assert_eq!(stored, vignere(&json, &key, true));
    assert_ne!(stored, json);
    assert_eq!(load_content(&stored, &key), json);
}

#[test]
fn content_round_trip_without_key() {
    let json = s("[{\"service\": \"mail\"}]");
    let stored = save_content(&json, &Vec::new());
    assert_eq!(stored, json);
    assert_eq!(load_content(&stored, &Vec::new()), json);
}

#[test]
fn load_indexes_entries() {
    let r = load(Some(vec![entry("a", 5), entry("b", 9)]));
    assert_eq!(r.len(), 2);
    assert_eq!(r[0].index, 0);
    assert_eq!(r[1].index, 1);
    assert_eq!(r[1].service, "b");
}

#[test]
fn load_of_unparsed_text_is_empty() {
    assert!(load(None).is_empty());
}

#[test]
fn commands_are_read() {
    assert_eq!(parse_command(&s("new")), Command::New);
    assert_eq!(parse_command(&s("list")), Command::List);
    assert_eq!(parse_command(&s("save")), Command::Save);
    assert_eq!(parse_command(&s("quit")), Command::Quit);
    assert_eq!(parse_command(&s("remove")), Command::Remove);
    assert_eq!(parse_command(&s("copy")), Command::Copy);
    assert_eq!(parse_command(&s("clear")), Command::Clear);
    assert_eq!(parse_command(&s("search")), Command::Search);
    assert_eq!(parse_command(&s("forcequit")), Command::ForceQuit);
    assert_eq!(parse_command(&s("export")), Command::Export);
    assert_eq!(parse_command(&s("help")), Command::Help);
    assert_eq!(parse_command(&s("NEW")), Command::Help);
    assert_eq!(parse_command(&s("")), Command::Help);
}

#[test]
fn quit_waits_for_save() {
    assert!(quit(0));
    assert!(!quit(2));
    let mut session = Session::new();
    session.apply(Command::New, true);
    session.apply(Command::Remove, true);
    session.apply(Command::Remove, false);
    assert_eq!(session.changes, 2);
    session.apply(Command::Quit, true);
    assert!(session.running);
    session.apply(Command::Save, false);
    assert_eq!(session.changes, 2);
    session.apply(Command::Save, true);
    assert_eq!(session.changes, 0);
    session.apply(Command::List, true);
    session.apply(Command::Quit, true);
    assert!(!session.running);
}

#[test]
fn forcequit_ends_with_changes() {
    let mut session = Session::new();
    session.apply(Command::New, true);
    session.apply(Command::ForceQuit, true);
    assert!(!session.running);
    assert_eq!(session.changes, 1);
}

#[test]
fn select_matches_compares_folded_text() {
    let entries = index(vec![entry("Mail", 0), entry("bank", 0), entry("MAIL", 0)]);
    let folded = vec![s("mail"), s("bank"), s("mail")];
    let found = select_matches(&entries, &folded, &s("mail"));
    assert_eq!(found.len(), 2);
    assert_eq!(found[0].service, "Mail");
    assert_eq!(found[1].service, "MAIL");
    assert_eq!(select_matches(&entries, &folded, &s("MAIL")).len(), 0);
}
