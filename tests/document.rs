use ascvg::document::{Ascvg, SaveTarget, SaveType};
use ascvg::text::{rows_to_text, split_lines};
use std::path::PathBuf;

fn rows_of(doc: &Ascvg) -> Vec<String> {
    doc.working_str.iter().map(|r| r.iter().collect()).collect()
}

fn is_blank_grid(doc: &Ascvg, w: usize, h: usize) -> bool {
    doc.working_str.len() == h && doc.working_str.iter().all(|r| r.len() == w && r.iter().all(|c| *c == ' '))
}

#[test]
fn load_ragged_text_is_padded() {
    let mut doc = Ascvg::new();
    doc.load_from_text("ab\nc");
    assert_eq!(doc.width, 2);
    assert_eq!(doc.height, 2);
    assert_eq!(rows_of(&doc), vec!["ab".to_string(), "c ".to_string()]);
    assert_eq!(doc.selected, (0, 0));
}

#[test]
fn load_keeps_path_and_resets_selection() {
    let mut doc = Ascvg::new();
    doc.path = Some(PathBuf::from("a.txt"));
    doc.change_char('x', (3, 4));
    doc.load_from_text("+--+\n|  |\n+--+\n");
    assert_eq!(doc.selected, (0, 0));
    assert_eq!(doc.path, Some(PathBuf::from("a.txt")));
    assert_eq!(doc.width, 4);
    assert_eq!(doc.height, 3);
}

#[test]
fn load_empty_text() {
    let mut doc = Ascvg::new();
    doc.load_from_text("");
    assert_eq!(doc.width, 0);
    assert_eq!(doc.height, 0);
    assert!(doc.working_str.is_empty());
}

#[test]
fn load_crlf_lines() {
    let mut doc = Ascvg::new();
    doc.load_from_text("a\r\nbcd\r\n");
    assert_eq!(doc.width, 3);
    assert_eq!(doc.height, 2);
    assert_eq!(rows_of(&doc), vec!["a  ".to_string(), "bcd".to_string()]);
}

#[test]
fn split_lines_blank_lines_kept() {
    let lines = split_lines("x\n\ny");
    assert_eq!(lines, vec![vec!['x'], vec![], vec!['y']]);
}

#[test]
fn reset_gives_blank_grid() {
    let mut doc = Ascvg::new();
    doc.load_from_text("abc\ndef");
    doc.change_char('z', (1, 1));
    doc.reset(10, 10);
    assert_eq!(doc.width, 10);
    assert_eq!(doc.height, 10);
    assert!(is_blank_grid(&doc, 10, 10));
    assert_eq!(doc.selected, (0, 0));
}

#[test]
fn new_file_clears_path() {
    let mut doc = Ascvg::new();
    doc.load_from_text("abc");
    doc.path = Some(PathBuf::from("x.txt"));
    doc.new_file();
    assert!(doc.path.is_none());
    assert!(is_blank_grid(&doc, 10, 10));
    assert_eq!((doc.width, doc.height), (10, 10));
}

#[test]
fn new_document_is_blank() {
    let doc = Ascvg::new();
    assert!(is_blank_grid(&doc, 10, 10));
    assert_eq!(doc.selected, (0, 0));
    assert!(doc.path.is_none());
}

#[test]
fn text_form_has_one_line_per_row() {
    let mut doc = Ascvg::new();
    doc.load_from_text("ab\nc");
    assert_eq!(doc.to_text(), "ab\nc \n");
    assert_eq!(rows_to_text(&vec![]), "");
}

#[test]
fn text_round_trip() {
    let mut doc = Ascvg::new();
    doc.load_from_text("+-+ \n| |x\n+-+ ");
    let before = doc.working_str.clone();
    let text = doc.to_text();
    let mut again = Ascvg::new();
    again.load_from_text(&text);
    assert_eq!(again.working_str, before);
    assert_eq!((again.width, again.height), (4, 3));
}

#[test]
fn narrow_then_widen_discards_cut_characters() {
    let mut doc = Ascvg::new();
    doc.load_from_text("abcd\nefgh");
    doc.resize_width(2);
    assert_eq!(rows_of(&doc), vec!["ab".to_string(), "ef".to_string()]);
    doc.resize_width(4);
    assert_eq!(rows_of(&doc), vec!["ab  ".to_string(), "ef  ".to_string()]);
    assert_eq!(doc.width, 4);
}

#[test]
fn lower_then_raise_discards_cut_rows() {
    let mut doc = Ascvg::new();
    doc.load_from_text("ab\ncd\nef");
    doc.resize_height(1);
    assert_eq!(rows_of(&doc), vec!["ab".to_string()]);
    doc.resize_height(3);
    assert_eq!(rows_of(&doc), vec!["ab".to_string(), "  ".to_string(), "  ".to_string()]);
    assert_eq!(doc.height, 3);
}

#[test]
fn selection_clamped_after_shrinking() {
    let mut doc = Ascvg::new();
    doc.change_char('q', (9, 8));
    doc.resize_width(5);
    assert_eq!(doc.selected, (4, 8));
    doc.resize_height(3);
    assert_eq!(doc.selected, (4, 2));
    doc.resize_width(7);
    assert_eq!(doc.selected, (4, 2));
}

#[test]
fn change_char_edits_one_cell_and_selects_it() {
    let mut doc = Ascvg::new();
    doc.reset(3, 2);
    doc.change_char('#', (2, 1));
    assert_eq!(rows_of(&doc), vec!["   ".to_string(), "  #".to_string()]);
    assert_eq!(doc.selected, (2, 1));
    doc.set_cell(0, 0, '*');
    assert_eq!(rows_of(&doc), vec!["*  ".to_string(), "  #".to_string()]);
    assert_eq!(doc.selected, (2, 1));
}

#[test]
fn save_without_path_asks_for_text_file() {
    let mut doc = Ascvg::new();
    doc.reset(2, 1);
    let req = doc.save_file();
    assert!(matches!(req.target, SaveTarget::Ask(SaveType::Text)));
    assert!(req.remember);
    assert_eq!(req.content, "  \n");
    doc.saved_to(&req, PathBuf::from("out.txt"));
    assert_eq!(doc.path, Some(PathBuf::from("out.txt")));
    let again = doc.save_file();
    assert!(matches!(again.target, SaveTarget::KnownPath));
}

#[test]
fn save_as_always_asks() {
    let mut doc = Ascvg::new();
    doc.path = Some(PathBuf::from("old.txt"));
    let req = doc.save_file_as();
    assert!(matches!(req.target, SaveTarget::Ask(SaveType::Text)));
    assert!(req.remember);
    doc.saved_to(&req, PathBuf::from("new.txt"));
    assert_eq!(doc.path, Some(PathBuf::from("new.txt")));
}

#[test]
fn export_renders_svg_and_keeps_path() {
    let mut doc = Ascvg::new();
    doc.load_from_text("+--+\n|  |\n+--+");
    doc.path = Some(PathBuf::from("a.txt"));
    let req = doc.export_file();
    assert!(matches!(req.target, SaveTarget::Ask(SaveType::Svg)));
    assert!(!req.remember);
    assert!(req.content.contains("<svg"));
    assert_ne!(req.content, doc.to_text());
    assert_eq!(req.content, doc.preview());
    doc.saved_to(&req, PathBuf::from("a.svg"));
    assert_eq!(doc.path, Some(PathBuf::from("a.txt")));
}

#[test]
fn dialog_filters() {
    assert_eq!(SaveType::Text.filter(), ("text", "txt"));
    assert_eq!(SaveType::Svg.filter(), ("svg", "svg"));
}

#[test]
fn export_request_carries_svg() {
    let req = ascvg::document::SaveRequest::export_of("<svg/>".to_string());
    assert_eq!(req.content, "<svg/>");
    assert!(matches!(req.target, SaveTarget::Ask(SaveType::Svg)));
    assert!(!req.remember);
}

#[test]
fn select_only_existing_cells() {
    let mut doc = Ascvg::new();
    doc.reset(3, 2);
    doc.select((2, 1));
    assert_eq!(doc.selected, (2, 1));
    doc.select((3, 0));
    assert_eq!(doc.selected, (2, 1));
}

#[test]
fn save_with_known_path_overwrites() {
    let mut doc = Ascvg::new();
    doc.reset(1, 1);
    doc.path = Some(PathBuf::from("k.txt"));
    let req = doc.save_file();
    assert!(matches!(req.target, SaveTarget::KnownPath));
    assert!(!req.remember);
    assert_eq!(req.content, " \n");
}
