use statement_parser::{Params, Source};

#[test]
fn handles_missing_args() {
    let args: Vec<String> = vec![String::from("target/debug/statement_parser")];

    match Params::new(&args) {
        Source::File(_f) => assert!(false),
        Source::Unknown => assert!(true),
    };
}

#[test]
fn takes_path_from_second_arg() {
    let args: Vec<String> =
        vec![String::from("target/debug/statement_parser"), String::from("data/full.csv")];

    match Params::new(&args) {
        Source::File(f) => assert_eq!("data/full.csv", f.path),
        Source::Unknown => assert!(false),
    };
}
