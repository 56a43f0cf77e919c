//! Environment substitution and wordlist expansion.

use shrs::env::{get_working_dir, set_working_dir, Env, Runtime};
use shrs::subst::{envsubst, expand_wordlist};

fn new_rt() -> Runtime {
    Runtime::new("/start".to_string(), "shrs".to_string())
}

#[test]
fn plain_words_come_back_unchanged() {
    let rt = new_rt();
    assert_eq!(envsubst(&rt, &"hello".to_string()), "hello");
    assert_eq!(envsubst(&rt, &"".to_string()), "");
    assert_eq!(envsubst(&rt, &"a-b_c.d".to_string()), "a-b_c.d");
}

#[test]
fn named_variables_expand() {
    let mut rt = new_rt();
    rt.env.set(&"EDITOR".to_string(), &"vim".to_string());
    rt.env.set(&"SHELL".to_string(), &"/bin/shrs".to_string());
    assert_eq!(envsubst(&rt, &"$SHELL ${EDITOR}".to_string()), "/bin/shrs vim");
}

#[test]
fn unset_variables_expand_to_nothing() {
    let rt = new_rt();
    assert_eq!(envsubst(&rt, &"x$MISSING!".to_string()), "x!");
    assert_eq!(envsubst(&rt, &"${MISSING}".to_string()), "");
}

#[test]
fn special_parameters_expand() {
    let mut rt = new_rt();
    rt.exit_status = 3;
    assert_eq!(envsubst(&rt, &"$?".to_string()), "3");
    rt.exit_status = -7;
    assert_eq!(envsubst(&rt, &"$?".to_string()), "-7");
    assert_eq!(envsubst(&rt, &"$#".to_string()), "0");
    rt.args.push("one".to_string());
    rt.args.push("two".to_string());
    assert_eq!(envsubst(&rt, &"$#".to_string()), "2");
    assert_eq!(envsubst(&rt, &"$0".to_string()), "shrs");
}

#[test]
fn lone_dollar_stays() {
    let rt = new_rt();
    assert_eq!(envsubst(&rt, &"$".to_string()), "$");
    assert_eq!(envsubst(&rt, &"$-".to_string()), "$-");
    assert_eq!(envsubst(&rt, &"${unclosed".to_string()), "${unclosed");
}

#[test]
fn leading_tilde_expands_to_home() {
    let mut rt = new_rt();
    rt.env.set(&"HOME".to_string(), &"/home/me".to_string());
    assert_eq!(envsubst(&rt, &"~/notes".to_string()), "/home/me/notes");
    // Only a leading tilde expands.
    assert_eq!(envsubst(&rt, &"a~b".to_string()), "a~b");
    // Without HOME a leading tilde expands to nothing.
    let bare = new_rt();
    assert_eq!(envsubst(&bare, &"~/x".to_string()), "/x");
}

#[test]
fn wordlists_split_at_spaces() {
    let words = expand_wordlist(&vec!["1 2".to_string(), "3".to_string()]);
    assert_eq!(words, vec!["1", "2", "3"]);
    // Consecutive spaces yield empty fields, as `str::split` does.
    let words = expand_wordlist(&vec!["a  b".to_string()]);
    assert_eq!(words, vec!["a", "", "b"]);
    let words = expand_wordlist(&vec![]);
    assert!(words.is_empty());
}

#[test]
fn env_latest_binding_wins() {
    let mut env = Env::new();
    assert!(env.get(&"K".to_string()).is_none());
    env.set(&"K".to_string(), &"1".to_string());
    env.set(&"K".to_string(), &"2".to_string());
    assert_eq!(env.get(&"K".to_string()), Some(&"2".to_string()));
}

#[test]
fn working_dir_updates_track_oldpwd() {
    let mut rt = new_rt();
    set_working_dir(&mut rt, &"/tmp".to_string());
    assert_eq!(get_working_dir(&rt), "/tmp");
    assert_eq!(rt.env.get(&"OLDPWD".to_string()), Some(&"/start".to_string()));
    assert_eq!(rt.env.get(&"PWD".to_string()), Some(&"/tmp".to_string()));
}

#[test]
fn runtime_copies_share_nothing() {
    let mut rt = new_rt();
    rt.env.set(&"A".to_string(), &"1".to_string());
    let mut copy = rt.clone_runtime();
    copy.env.set(&"A".to_string(), &"2".to_string());
    copy.working_dir = "/elsewhere".to_string();
    assert_eq!(rt.env.get(&"A".to_string()), Some(&"1".to_string()));
    assert_eq!(rt.working_dir, "/start");
    assert_eq!(copy.env.get(&"A".to_string()), Some(&"2".to_string()));
}

#[test]
fn variable_names_end_at_non_name_characters() {
    let mut rt = new_rt();
    rt.env.set(&"AB".to_string(), &"x".to_string());
    assert_eq!(envsubst(&rt, &"$AB.c".to_string()), "x.c");
    assert_eq!(envsubst(&rt, &"${AB}c".to_string()), "xc");
    // A digit is not a name character, so the name stops before it.
    rt.env.set(&"A".to_string(), &"y".to_string());
    assert_eq!(envsubst(&rt, &"$A1".to_string()), "y1");
}
