//! `std::` paths in Soroban contracts, which build with `#![no_std]`.

use vstd::prelude::*;
use crate::syntax::{Expr, SourceFile, UseTree};
use crate::walk::{ev_file, file_events, plain, plain_walk, Event};
use crate::finding::{fv, lemma_views_push, new_finding, views, Check, Finding, FindingView, Severity};
use crate::contract::hits;
use crate::text::str_eq;

verus! {

pub const CHECK_NAME: &'static str = "no-std-violation";

/// Flags `use std::…` trees and `std::…` path expressions anywhere in a file.
pub struct NoStdCheck;

pub open spec fn use_description() -> Seq<char> {
    "`use std::` detected. Soroban contracts must be compiled with `#![no_std]`; `std` paths are unavailable in WASM targets."@
}

pub open spec fn path_description() -> Seq<char> {
    "`std::` path expression detected. Soroban contracts must be compiled with `#![no_std]`; `std` paths are unavailable in WASM targets."@
}

/// A use-tree segment `std`, or a path expression of two or more segments
/// whose first is `std`.
pub open spec fn event_hit(ev: Event) -> Seq<FindingView> {
    match ev {
        Event::Use(t) => match t {
            UseTree::Path { ident, line, .. } =>
                if ident@ == "std"@ {
                    seq![fv(CHECK_NAME@, Severity::Medium, *line, Seq::empty(), use_description())]
                } else {
                    Seq::empty()
                },
            _ => Seq::empty(),
        },
        Event::Expr(e) => match e {
            Expr::Path { path, line } =>
                if path.segments.len() > 1 && path.segments@[0].ident@ == "std"@ {
                    seq![fv(CHECK_NAME@, Severity::Medium, *line, Seq::empty(), path_description())]
                } else {
                    Seq::empty()
                },
            _ => Seq::empty(),
        },
        _ => Seq::empty(),
    }
}

impl Check for NoStdCheck {
    open spec fn spec_name(&self) -> Seq<char> {
        CHECK_NAME@
    }

    open spec fn spec_run(&self, file: &SourceFile, source: Seq<char>) -> Seq<FindingView> {
        hits(ev_file(file, plain()), |ev: Event| event_hit(ev), ev_file(file, plain()).len() as int)
    }

    fn name(&self) -> (r: &str) {
        CHECK_NAME
    }

    fn run(&self, file: &SourceFile, source: &str) -> (r: Vec<Finding>) {
        proof { reveal_strlit(""); }
        let evs = file_events(file, plain_walk());
        let ghost h = |ev: Event| event_hit(ev);
        let mut out: Vec<Finding> = Vec::new();
        let mut j: usize = 0;
        while j < evs.len()
            invariant
                j <= evs.len(),
                evs@ == ev_file(file, plain()),
                h == (|ev: Event| event_hit(ev)),
                views(out@) == hits(evs@, h, j as int),
            decreases evs.len() - j,
        {
            match evs[j] {
                Event::Use(t) => match t {
                    UseTree::Path { ident, line, .. } => {
                        if str_eq(ident.as_str(), "std") {
                            let d = String::from_str("`use std::` detected. Soroban contracts must be compiled with `#![no_std]`; `std` paths are unavailable in WASM targets.");
                            let fd = new_finding(CHECK_NAME, Severity::Medium, *line, "", d);
                            proof { lemma_views_push(out@, fd); }
                            out.push(fd);
                        }
                    }
                    _ => {}
                },
                Event::Expr(e) => match e {
                    Expr::Path { path, line } => {
                        if path.segments.len() > 1 && str_eq(path.segments[0].ident.as_str(), "std") {
                            let d = String::from_str("`std::` path expression detected. Soroban contracts must be compiled with `#![no_std]`; `std` paths are unavailable in WASM targets.");
                            let fd = new_finding(CHECK_NAME, Severity::Medium, *line, "", d);
                            proof { lemma_views_push(out@, fd); }
                            out.push(fd);
                        }
                    }
                    _ => {}
                },
                _ => {}
            }
            proof {
                reveal_strlit("");
                assert(""@ =~= Seq::<char>::empty());
            }
            assert(views(out@) =~= hits(evs@, h, j + 1));
            j = j + 1;
        }
        out
    }
}

} // verus!

verus! {

/// Every finding of this check names it, is of medium severity, and has an
/// empty file path.
pub proof fn lemma_findings_tagged(file: &SourceFile, source: Seq<char>)
    ensures crate::finding::tagged(NoStdCheck.spec_run(file, source), CHECK_NAME@, Severity::Medium),
{
    let evs = ev_file(file, plain());
    crate::contract::lemma_hits_tagged(evs, |ev: Event| event_hit(ev), evs.len() as int, CHECK_NAME@, Severity::Medium);
}

} // verus!

verus! {

/// `use std::...` is reported at its line.
pub proof fn lemma_use_std_flagged(file: &SourceFile, k: int)
    requires
        0 <= k < ev_file(file, plain()).len(),
        ev_file(file, plain())[k] matches Event::Use(t) && (*t matches UseTree::Path { ident, .. } && ident@ == "std"@),
    ensures
        NoStdCheck.spec_run(file, Seq::empty()).contains(fv(CHECK_NAME@, Severity::Medium, ev_file(file, plain())[k]->Use_0->Path_line,
            Seq::empty(), use_description())),
{
    let evs = ev_file(file, plain());
    let h = |ev: Event| event_hit(ev);
    let x = fv(CHECK_NAME@, Severity::Medium, evs[k]->Use_0->Path_line, Seq::empty(), use_description());
    assert(h(evs[k])[0] == x);
    crate::contract::lemma_hits_contain(evs, h, k, evs.len() as int, x);
}

/// A path expression `std::a::b` (two or more segments, the first `std`)
/// is reported at its line.
pub proof fn lemma_std_path_flagged(file: &SourceFile, k: int)
    requires
        0 <= k < ev_file(file, plain()).len(),
        ev_file(file, plain())[k] matches Event::Expr(e)
            && (*e matches Expr::Path { path, .. } && path.segments.len() >= 2 && path.segments@[0].ident@ == "std"@),
    ensures
        NoStdCheck.spec_run(file, Seq::empty()).contains(fv(CHECK_NAME@, Severity::Medium, ev_file(file, plain())[k]->Expr_0->Path_line,
            Seq::empty(), path_description())),
{
    let evs = ev_file(file, plain());
    let h = |ev: Event| event_hit(ev);
    let x = fv(CHECK_NAME@, Severity::Medium, evs[k]->Expr_0->Path_line, Seq::empty(), path_description());
    assert(h(evs[k])[0] == x);
    crate::contract::lemma_hits_contain(evs, h, k, evs.len() as int, x);
}

} // verus!
