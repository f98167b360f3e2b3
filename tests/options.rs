use scst::{cmd_with_options, Options, ScstError};

#[test]
pub fn test_options() {
    let mut opt = Options::new();
    let s = opt.pack();
    assert_eq!(s, None);

    let s = opt.check_pack(&Vec::new());
    assert_eq!(s.unwrap(), None);

    opt.insert("a", "b");
    assert_eq!(opt.pack(), Some("a=b".to_string()));

    opt.insert("a", "b");
    assert!(opt.check_pack(&vec!["c".to_string()]).is_err());
}

#[test]
fn empty_options_pack_to_nothing() {
    let opt = Options::new();
    assert_eq!(opt.pack(), None);
    assert_eq!(opt.check_pack(&vec!["a".to_string()]).unwrap(), None);
}

#[test]
fn one_pair_packs_to_key_value() {
    let mut opt = Options::new();
    opt.insert("read_only", "1");
    assert_eq!(opt.pack(), Some("read_only=1".to_string()));
}

#[test]
fn two_pairs_pack_in_insertion_order() {
    let mut opt = Options::new();
    opt.insert("a", "1");
    opt.insert("b", "2");
    assert_eq!(opt.pack(), Some("a=1;b=2".to_string()));

    let mut rev = Options::new();
    rev.insert("b", "2");
    rev.insert("a", "1");
    assert_eq!(rev.pack(), Some("b=2;a=1".to_string()));
}

#[test]
fn setting_a_key_again_replaces_its_value() {
    let mut opt = Options::new();
    opt.insert("a", "1");
    opt.insert("b", "2");
    opt.insert("a", "3");
    assert_eq!(opt.pack(), Some("a=3;b=2".to_string()));
}

#[test]
fn check_pack_names_the_keys_not_allowed() {
    let mut opt = Options::new();
    opt.insert("a", "1");
    opt.insert("b", "2");
    opt.insert("c", "3");
    let r = opt.check_pack(&vec!["b".to_string()]);
    assert_eq!(
        r,
        Err(ScstError::InvalidParams(vec!["a".to_string(), "c".to_string()]))
    );
}

#[test]
fn check_pack_on_a_superset_equals_pack() {
    let mut opt = Options::new();
    opt.insert("a", "1");
    opt.insert("b", "2");
    let keys = vec!["b".to_string(), "a".to_string(), "z".to_string()];
    assert_eq!(opt.check_pack(&keys).unwrap(), opt.pack());
}

#[test]
fn different_set_and_contains_keys() {
    let mut opt = Options::new();
    opt.insert("a", "1");
    opt.insert("b", "2");
    let keys = vec!["b".to_string(), "x".to_string()];
    assert_eq!(opt.different_set(&keys), vec!["a".to_string()]);
    assert_eq!(opt.contains_keys(&keys), vec!["b".to_string()]);
}

#[test]
fn command_takes_packed_options_after_a_space() {
    let mut opt = Options::new();
    let params = vec!["read_only".to_string()];
    assert_eq!(
        cmd_with_options("add vol 0".to_string(), &params, &opt).unwrap(),
        "add vol 0"
    );
    opt.insert("read_only", "1");
    assert_eq!(
        cmd_with_options("add vol 0".to_string(), &params, &opt).unwrap(),
        "add vol 0 read_only=1"
    );
    opt.insert("bogus", "1");
    assert_eq!(
        cmd_with_options("add vol 0".to_string(), &params, &opt),
        Err(ScstError::InvalidParams(vec!["bogus".to_string()]))
    );
}
