//! Layout of the bundled extension models, spans, decorations and the
//! feedback bundle.

use syntax_model::ext::{LabelModel, RepeatModel};
use syntax_model::feedback::{Feedback, Pass, Severity};
use syntax_model::layout::{Command, LayoutContext};
use syntax_model::model::Model;
use syntax_model::span::{Span, Spanned};
use syntax_model::syntax::Decoration;

fn ctx() -> LayoutContext {
    LayoutContext { italic: false, bolder: false }
}

#[test]
fn label_lays_out_into_nothing() {
    let model = LabelModel { name: String::from("anchor") };
    let pass = model.layout(&ctx());
    assert_eq!(pass.output.len(), 0);
    assert_eq!(pass.feedback.diags.len(), 0);
    assert_eq!(pass.feedback.decorations.len(), 0);
}

#[test]
fn repeat_lays_out_its_piece_count_times() {
    let model = RepeatModel { piece: String::from("ha"), count: 3 };
    let pass = model.layout(&ctx());
    assert_eq!(pass.output.len(), 3);
    for command in &pass.output {
        match command {
            Command::AddText(t) => assert_eq!(*t, "ha"),
            _ => panic!("expected only text commands"),
        }
    }
    assert_eq!(pass.feedback.diags.len(), 0);

    let silent = RepeatModel { piece: String::from("x"), count: 0 };
    assert_eq!(silent.layout(&ctx()).output.len(), 0);
}

#[test]
fn span_pairs_offsets() {
    let s = Span::new(2, 7);
    assert_eq!(s.start, 2);
    assert_eq!(s.end, 7);
    let sp = Spanned::new(Decoration::Italic, s);
    assert_eq!(sp.v, Decoration::Italic);
    assert_eq!(sp.span, s);
}

#[test]
fn decorations_compare_by_tag() {
    assert_eq!(Decoration::ValidFuncName, Decoration::ValidFuncName);
    assert_ne!(Decoration::ValidFuncName, Decoration::InvalidFuncName);
    assert_ne!(Decoration::ArgumentKey, Decoration::ObjectKey);
    assert_ne!(Decoration::Italic, Decoration::Bold);
    let copy = Decoration::Bold;
    assert_eq!(copy, Decoration::Bold);
}

#[test]
fn feedback_accumulates_in_order() {
    let mut f = Feedback::new();
    assert_eq!(f.diags.len(), 0);
    assert_eq!(f.decorations.len(), 0);

    f.report(Severity::Warning, String::from("first"), Span::new(0, 1));
    f.report(Severity::Error, String::from("second"), Span::new(1, 2));
    f.decorate(Decoration::ValidFuncName, Span::new(0, 1));
    assert_eq!(f.diags.len(), 2);
    assert_eq!(f.diags[0].v.message, "first");
    assert_eq!(f.diags[0].v.severity, Severity::Warning);
    assert_eq!(f.diags[1].v.message, "second");
    assert_eq!(f.diags[1].v.severity, Severity::Error);
    assert_eq!(f.decorations.len(), 1);

    let mut g = Feedback::new();
    g.report(Severity::Warning, String::from("third"), Span::new(2, 3));
    g.decorate(Decoration::Bold, Span::new(2, 3));
    f.extend(g);
    assert_eq!(f.diags.len(), 3);
    assert_eq!(f.diags[2].v.message, "third");
    assert_eq!(f.decorations.len(), 2);
    assert_eq!(f.decorations[1].v, Decoration::Bold);
}

#[test]
fn pass_pairs_output_with_feedback() {
    let mut f = Feedback::new();
    f.report(Severity::Warning, String::from("note"), Span::new(0, 1));
    let pass = Pass::new(42u64, f);
    assert_eq!(pass.output, 42);
    assert_eq!(pass.feedback.diags.len(), 1);
}
