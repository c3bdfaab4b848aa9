use nelisp_gtk::bridge::{layer2_candidates, layer2_home_path, layer2_setup_form, layer2_src_path};

#[test]
fn candidates_are_under_home_in_order() {
    let c = layer2_candidates("/home/u");
    assert_eq!(
        c,
        vec![
            "/home/u/Cowork/Notes/dev/nelisp-emacs/.worktrees/emacs-builtins-port/src".to_string(),
            "/home/u/Notes/dev/nelisp-emacs/.worktrees/emacs-builtins-port/src".to_string(),
            "/home/u/Cowork/Notes/dev/nelisp-emacs/src".to_string(),
            "/home/u/Notes/dev/nelisp-emacs/src".to_string(),
        ]
    );
}

#[test]
fn nemacs_home_wins_and_loses_trailing_slashes() {
    let none = vec![false; 4];
    assert_eq!(layer2_src_path(Some("/opt/ne//"), Some("/x"), "/h", &none), "/opt/ne/src");
    assert_eq!(layer2_src_path(Some(""), None, "/h", &none), "/src");
}

#[test]
fn explicit_source_directory_is_next() {
    let all = vec![true; 4];
    assert_eq!(layer2_src_path(None, Some("/explicit/src/"), "/h", &all), "/explicit/src/");
}

#[test]
fn first_marked_candidate_else_last() {
    assert_eq!(
        layer2_src_path(None, None, "/h", &vec![false, true, true, false]),
        "/h/Notes/dev/nelisp-emacs/.worktrees/emacs-builtins-port/src"
    );
    assert_eq!(
        layer2_src_path(None, None, "/h", &vec![false; 4]),
        "/h/Notes/dev/nelisp-emacs/src"
    );
}

#[test]
fn home_path_strips_src_suffix() {
    assert_eq!(layer2_home_path("/opt/ne/src", "/h"), "/opt/ne");
    assert_eq!(layer2_home_path("/src", "/h"), "");
    assert_eq!(layer2_home_path("/opt/ne/lisp", "/h"), "/h/Notes/dev/nelisp-emacs");
    assert_eq!(layer2_home_path("src", "/h"), "/h/Notes/dev/nelisp-emacs");
}

#[test]
fn home_of_nemacs_home_source_is_nemacs_home() {
    let src = layer2_src_path(Some("/opt/ne/"), None, "/h", &vec![false; 4]);
    assert_eq!(layer2_home_path(&src, "/h"), "/opt/ne");
}

#[test]
fn setup_form_text() {
    let form = layer2_setup_form("/s/src", "/s");
    let expected = r#"(progn
            (unless (boundp 'load-path) (defvar load-path nil))
            (unless (member "/s/src" load-path)
              (setq load-path (cons "/s/src" load-path)))
            (unless (boundp 'nelisp-emacs-vendor-root)
              (defvar nelisp-emacs-vendor-root nil))
            (setq nelisp-emacs-vendor-root "/s/vendor")
            (require 'emacs-init)
            'load-path-ready)"#;
    assert_eq!(form, expected);
}
