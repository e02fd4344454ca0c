use calbot::sysf::{infer, parse, resolve, trim_markup, Action, Event, Stage};

#[test]
fn trim_markup_strips_delimiting_backticks() {
    assert_eq!(trim_markup("`\\x. x`"), "\\x. x");
    assert_eq!(trim_markup("no ticks"), "no ticks");
    assert_eq!(trim_markup("````"), "");
    assert_eq!(trim_markup(""), "");
    assert_eq!(trim_markup("`a`b`"), "a`b");
    assert_eq!(trim_markup("``x"), "x");
    assert_eq!(trim_markup("x``"), "x");
}

#[test]
fn invalid_syntax_on_parse_reports_and_aborts() {
    let (mut inv, act) = parse("`(\\x`");
    assert_eq!(act, Action::Parse("(\\x".to_string()));
    let act = inv.step(Event::ParseFailed("unexpected end of input".to_string()));
    assert_eq!(act, Action::Done);
    assert_eq!(inv.stage, Stage::Done);
    assert!(inv.failed);
    assert_eq!(inv.sections.len(), 1);
    assert_eq!(inv.sections[0].title, "Syntax Error");
    assert_eq!(inv.sections[0].body, "```\nunexpected end of input\n```");
}

#[test]
fn invalid_syntax_on_resolve_reports_and_aborts() {
    let (mut inv, _) = resolve("(\\x");
    let act = inv.step(Event::ParseFailed("oops".to_string()));
    assert_eq!(act, Action::Done);
    assert!(inv.failed);
    assert_eq!(inv.sections.len(), 1);
    assert_eq!(inv.sections[0].title, "Syntax Error");
}

#[test]
fn invalid_syntax_on_infer_reports_and_aborts() {
    let (mut inv, _) = infer("(\\x");
    let act = inv.step(Event::ParseFailed("oops".to_string()));
    assert_eq!(act, Action::Done);
    assert!(inv.failed);
    assert_eq!(inv.sections.len(), 1);
    assert_eq!(inv.sections[0].title, "Syntax Error");
}

#[test]
fn parse_only_succeeds_on_unresolvable_input() {
    let (mut inv, act) = parse("`x`");
    assert_eq!(act, Action::Parse("x".to_string()));
    assert_eq!(inv.step(Event::ParseOk), Action::RenderParsed);
    assert_eq!(inv.step(Event::Rendered("x".to_string())), Action::Done);
    assert_eq!(inv.stage, Stage::Done);
    assert!(!inv.failed);
    assert_eq!(inv.sections.len(), 1);
    assert_eq!(inv.sections[0].title, "Parsed Term");
    assert_eq!(inv.sections[0].body, "```\nx\n```");
}

#[test]
fn resolve_reports_resolution_error_without_resolved_term() {
    let (mut inv, _) = resolve("`x`");
    assert_eq!(inv.step(Event::ParseOk), Action::RenderParsed);
    assert_eq!(inv.step(Event::Rendered("x".to_string())), Action::Resolve);
    assert_eq!(inv.step(Event::ResolveFailed), Action::Done);
    assert_eq!(inv.stage, Stage::Done);
    assert!(inv.failed);
    assert_eq!(inv.sections.len(), 2);
    assert_eq!(inv.sections[0].title, "Parsed Term");
    assert_eq!(inv.sections[1].title, "Resolution Error");
    assert_eq!(
        inv.sections[1].body,
        "(More detail in resolution errors is to come soon.)"
    );
    assert!(inv.sections.iter().all(|s| s.title != "Resolved Term"));
}

#[test]
fn closed_well_typed_term_runs_all_stages() {
    let (mut inv, act) = infer("`\\x. x`");
    assert_eq!(act, Action::Parse("\\x. x".to_string()));
    assert_eq!(inv.step(Event::ParseOk), Action::RenderParsed);
    assert_eq!(
        inv.step(Event::Rendered("\u{3bb}x. x".to_string())),
        Action::Resolve
    );
    assert_eq!(inv.step(Event::ResolveOk), Action::RenderResolved);
    assert_eq!(
        inv.step(Event::Rendered("\u{3bb}. #0".to_string())),
        Action::Infer
    );
    assert_eq!(inv.step(Event::InferOk), Action::RenderInferred);
    assert_eq!(
        inv.step(Event::Rendered("\u{2200}a. a \u{2192} a".to_string())),
        Action::RenderContext
    );
    assert_eq!(
        inv.step(Event::Rendered("TyCtxt []".to_string())),
        Action::Done
    );
    assert_eq!(inv.stage, Stage::Done);
    assert!(!inv.failed);
    assert_eq!(inv.sections.len(), 4);
    assert_eq!(inv.sections[0].title, "Parsed Term");
    assert_eq!(inv.sections[1].title, "Resolved Term");
    assert_eq!(inv.sections[2].title, "Inferred Type");
    assert_eq!(inv.sections[2].body, "```\n\u{2200}a. a \u{2192} a\n```");
    assert_eq!(inv.sections[3].title, "TyCtxt");
}

#[test]
fn uninferrable_term_still_shows_renderings_and_completes() {
    let (mut inv, _) = infer("`x x`");
    assert_eq!(inv.step(Event::ParseOk), Action::RenderParsed);
    assert_eq!(inv.step(Event::Rendered("x x".to_string())), Action::Resolve);
    assert_eq!(inv.step(Event::ResolveOk), Action::RenderResolved);
    assert_eq!(inv.step(Event::Rendered("#0 #0".to_string())), Action::Infer);
    assert_eq!(inv.step(Event::Uninferrable), Action::RenderContext);
    assert_eq!(
        inv.step(Event::Rendered("TyCtxt []".to_string())),
        Action::Done
    );
    assert_eq!(inv.stage, Stage::Done);
    assert!(!inv.failed);
    assert_eq!(inv.sections.len(), 4);
    assert_eq!(inv.sections[0].title, "Parsed Term");
    assert_eq!(inv.sections[1].title, "Resolved Term");
    assert_eq!(inv.sections[2].title, "Inferred Type");
    assert_eq!(inv.sections[2].body, "Uninferrable.");
    assert_eq!(inv.sections[3].title, "TyCtxt");
}

#[test]
fn stray_event_is_ignored() {
    let (mut inv, _) = parse("x");
    assert_eq!(inv.step(Event::ResolveOk), Action::Ignored);
    assert_eq!(inv.stage, Stage::AwaitParse);
    assert!(inv.sections.is_empty());
    assert!(!inv.failed);
}
