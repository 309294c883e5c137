use envyc::diagnostic::diagnostic::{Diagnostic, Level, Message, SubDiagnostic};
use envyc::diagnostic::diagnostics::{Diagnostic as TitledDiagnostic, Level as TitledLevel};
use envyc::parse::syntax::ptr::P;
use envyc::source::snippet::{Snippet, SourcePos};
use envyc::source::span::{Span, Spanned};
use envyc::unit::source::{FileInformation, Source as UnitSource};
use envyc::unit::source_map::{SourceMap as UnitSourceMap, SourcePos as UnitPos};

#[test]
fn snippet_ends_move_independently() {
    let s = Snippet::new(0, SourcePos(4), SourcePos(9));
    assert_eq!(s.extend_back(SourcePos(1)).extend(SourcePos(12)), s.extend(SourcePos(12)).extend_back(SourcePos(1)));
    assert_eq!(s.extend(SourcePos(12)), Snippet::new(0, SourcePos(4), SourcePos(12)));
    assert_eq!(SourcePos(3).add(4), SourcePos(7));
    assert_eq!(SourcePos(3).add_pos(SourcePos(5)), SourcePos(8));
    assert_eq!(SourcePos(9).sub(SourcePos(5)), SourcePos(4));
}

#[test]
fn source_annotations_count_from_the_shown_start() {
    let child = SubDiagnostic::new(
        vec![
            Message::new(Level::Error, "here", Some(Snippet::new(0, SourcePos(10), SourcePos(14)))),
            Message::new(Level::Help, "no place", None),
            Message::new(Level::Warning, "there", Some(Snippet::new(0, SourcePos(20), SourcePos(21)))),
        ],
        Snippet::new(0, SourcePos(10), SourcePos(21)),
    );
    let annotations = child.source_annotations(SourcePos(8));
    assert_eq!(annotations.len(), 2);
    assert_eq!(annotations[0].range, (2, 6));
    assert_eq!(annotations[0].label, "here");
    assert_eq!(annotations[0].level, Level::Error);
    assert_eq!(annotations[1].range, (12, 13));
    assert_eq!(annotations[1].label, "there");
    assert_eq!(annotations[1].level, Level::Warning);

    let mut diagnostic = Diagnostic::new(Level::Error, "title");
    diagnostic.add_child(child);
    diagnostic.add_footer(Message::new(Level::Help, "try this", None));
}

#[test]
fn titled_diagnostics_keep_their_footer_in_order() {
    let diagnostic = TitledDiagnostic::new(TitledLevel::Error, "oops".to_string(), Snippet::new(1, SourcePos(0), SourcePos(3)))
        .add_footer(TitledLevel::Warning, "first".to_string())
        .add_footer(TitledLevel::Warning, "second".to_string());
    let text = format!("{:?}", diagnostic);
    assert!(text.find("first").unwrap() < text.find("second").unwrap());
}

#[test]
fn pointers_pass_their_value_through_functions() {
    let p = P(3);
    assert_eq!(*p, 3);
    assert_eq!(p.clone().into_inner(), 3);
    assert_eq!(p.into_inner(), 3);
    assert_eq!(P(3).and_then(|x| x * 2), 6);
    assert_eq!(P(3).map(|x| x + 1).into_inner(), 4);
    assert!(P(3).filter_map(|x| if x > 5 { Some(x) } else { None }).is_none());
    assert_eq!(P(7).filter_map(|x| if x > 5 { Some(x) } else { None }).unwrap().into_inner(), 7);
}

#[test]
fn spans_tag_values() {
    let span = Span::new(2, 5, 9);
    assert_eq!(span.range(), (5, 9));
    let tagged = Spanned::new(span, 'x');
    assert_eq!(tagged.node, 'x');
}

#[test]
fn diagnostics_chain_children_and_footers() {
    let mut diagnostic = Diagnostic::new(Level::Error, "title");
    diagnostic
        .add_child(SubDiagnostic::new(vec![], Snippet::new(0, SourcePos(0), SourcePos(1))))
        .add_child(SubDiagnostic::new(vec![], Snippet::new(0, SourcePos(2), SourcePos(3))))
        .add_footer(Message::new(Level::Help, "first", None))
        .add_footer(Message::new(Level::Help, "second", None));
    let text = format!("{:?}", diagnostic);
    assert!(text.find("first").unwrap() < text.find("second").unwrap());
    assert_eq!(text.matches("SubDiagnostic").count(), 2);
}

#[test]
fn unit_source_map_lays_sources_end_to_end() {
    let mut map = UnitSourceMap::new();
    let mut a = UnitSource::new(FileInformation::VirtualFile, UnitPos::new(0), UnitPos::new(0));
    a.src = "abc".to_string();
    let b = UnitSource::new(FileInformation::VirtualFile, UnitPos::new(0), UnitPos::new(0));
    let first = map.add_source(a).unwrap();
    let second = map.add_source(b).unwrap();
    assert_eq!(first, UnitPos::new(0));
    assert_eq!(second, UnitPos::new(4));
    assert_eq!(map.get_source(first).src, "abc");
    assert_eq!(map.get_source(first).end_pos, UnitPos::new(3));
    assert_eq!(map.get_source(second).end_pos, UnitPos::new(4));
}

#[test]
fn diagnostics_annotate_their_title_and_footer() {
    let mut diagnostic = Diagnostic::new(Level::Warning, "unused value");
    diagnostic
        .add_footer(Message::new(Level::Help, "first", None))
        .add_footer(Message::new(Level::Error, "second", None));
    let title = diagnostic.title_annotation();
    assert_eq!(title.label, "unused value");
    assert_eq!(title.level, Level::Warning);
    let footer = diagnostic.footer_annotations();
    assert_eq!(footer.len(), 2);
    assert_eq!((footer[0].label, footer[0].level), ("first", Level::Help));
    assert_eq!((footer[1].label, footer[1].level), ("second", Level::Error));
}

#[test]
fn pointer_map_keeps_identity_and_composes() {
    assert_eq!(P(5).map(|x| x).into_inner(), 5);
    assert_eq!(P(2).map(|x| x + 1).map(|x| x * 3).into_inner(), 9);
    assert_eq!(P(2).map(|x| (x + 1) * 3).into_inner(), 9);
}
