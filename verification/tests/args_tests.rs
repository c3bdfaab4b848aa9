use nelisp_gtk::args::{
    cursor_from_args, row_from_arg, string_opt, string_or, want_int, want_string, ArgError,
    LispArg,
};
use nelisp_gtk::bridge::printed_result;
use nelisp_gtk::frame::{bootstrap_ok, key_repr, refresh_mode_line, COLS, MODE_LINE_ROW, ROWS};
use nelisp_gtk::grid::CharGrid;

#[test]
fn want_int_accepts_integers_only() {
    let args = vec![LispArg::Int(7), LispArg::Str("x".to_string()), LispArg::Other];
    assert_eq!(want_int(&args, 0, "f"), Ok(7));
    assert_eq!(
        want_int(&args, 1, "nelisp-gtk-init"),
        Err(ArgError::WrongType { expected: "nelisp-gtk-init: integer arg #1".to_string(), index: 1 })
    );
    assert_eq!(
        want_int(&args, 12, "f"),
        Err(ArgError::Missing { message: "f: missing arg #12".to_string(), index: 12 })
    );
}

#[test]
fn want_string_accepts_strings_only() {
    let args = vec![LispArg::Int(7), LispArg::Str("x".to_string())];
    assert_eq!(want_string(&args, 1, "f"), Ok("x".to_string()));
    assert_eq!(
        want_string(&args, 0, "g"),
        Err(ArgError::WrongType { expected: "g: string arg #0".to_string(), index: 0 })
    );
    assert_eq!(
        want_string(&args, 2, "g"),
        Err(ArgError::Missing { message: "g: missing arg #2".to_string(), index: 2 })
    );
}

#[test]
fn cursor_and_row_arguments() {
    assert_eq!(cursor_from_args(&vec![LispArg::Int(3), LispArg::Int(4)]), Some((3, 4)));
    assert_eq!(cursor_from_args(&vec![LispArg::Other]), None);
    assert_eq!(cursor_from_args(&vec![LispArg::Int(3), LispArg::Other]), None);
    assert_eq!(row_from_arg(&vec![LispArg::Int(22)]), Some(22));
    assert_eq!(row_from_arg(&vec![LispArg::Other]), None);
    assert_eq!(row_from_arg(&vec![]), None);
}

#[test]
fn optional_string_arguments() {
    let args = vec![LispArg::Other, LispArg::Str("notes.txt".to_string())];
    assert_eq!(string_or(&args, 0, "Open File"), "Open File");
    assert_eq!(string_or(&args, 1, "Open File"), "notes.txt");
    assert_eq!(string_or(&args, 5, "Save File"), "Save File");
    assert_eq!(string_opt(&args, 1), Some("notes.txt".to_string()));
    assert_eq!(string_opt(&args, 0), None);
}

#[test]
fn printed_results_mark_errors() {
    assert_eq!(printed_result(Ok("3".to_string())), "3");
    assert_eq!(printed_result(Err("void-function foo".to_string())), "ERR void-function foo");
}

#[test]
fn printed_error_fails_boot_and_probes() {
    let err = printed_result(Err(String::new()));
    assert!(!bootstrap_ok(&vec![err.clone()]));
    let mut g = CharGrid::blank(ROWS, COLS);
    refresh_mode_line(&mut g, &err, &err, &err);
    let row: String = (0..COLS).map(|c| g.get(MODE_LINE_ROW, c)).collect();
    assert!(row.starts_with("-U:---  ?    L?   All   (?) "), "row = {row:?}");
}

#[test]
fn key_repr_describes_key() {
    assert_eq!(key_repr("a", None, Some('a')), "a 'a'");
    assert_eq!(key_repr("Return", None, Some('\r')), "Return");
    assert_eq!(key_repr("x", Some("CONTROL_MASK"), Some('x')), "x mod=CONTROL_MASK 'x'");
    assert_eq!(key_repr("Shift_L", Some("SHIFT_MASK"), None), "Shift_L mod=SHIFT_MASK");
}
