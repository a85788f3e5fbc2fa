//! The decisions behind the commands: what `config` does, which settings a
//! sort runs with, and the summary it prints.

pub mod args;
pub mod display;

use vstd::prelude::*;
use vstd::string::*;

use crate::cli::args::{ConfigArgs, SortArgs};
use crate::config::SemesterConfig;
use crate::organize::paths::{expand_tilde, path_join, path_join_of, tilde_expanded};
use crate::organize::SortReport;
use crate::text::{dec_nat, starts_with_char, trim_start_char, trim_start_matching, u64_to_decimal};

verus! {

/// What the `config` subcommand does.
#[derive(Debug, PartialEq, Eq, Structural)]
pub enum ConfigAction {
    /// Print the configuration file.
    Print,
    /// Open the configuration file in the editor.
    Edit,
    /// Nothing was asked for.
    Nothing,
}

/// The action of `config`: `--show` wins over `--edit`; neither does nothing.
pub fn handle_config(args: ConfigArgs) -> (r: ConfigAction)
    ensures
        args.show ==> r == ConfigAction::Print,
        !args.show && args.edit ==> r == ConfigAction::Edit,
        !args.show && !args.edit ==> r == ConfigAction::Nothing,
{
    if args.show {
        ConfigAction::Print
    } else if args.edit {
        ConfigAction::Edit
    } else {
        ConfigAction::Nothing
    }
}

/// The period settings a sort runs with: the configured ones, with grouping
/// switched off by `--no-semester`.
pub fn sort_semester(config: &SemesterConfig, no_semester: bool) -> (r: SemesterConfig)
    ensures
        r.enabled == (config.enabled && !no_semester),
        r.months_per_period == config.months_per_period,
        r.folder_format@ == config.folder_format@,
{
    if no_semester {
        config.disabled()
    } else {
        config.duplicate()
    }
}

/// The source and target directories of a sort, with a leading `~`
/// expanded. Without a target the sort organises the source in place: the
/// target is the expanded source itself.
pub fn sort_paths(args: &SortArgs) -> (r: (String, String))
    ensures
        tilde_expanded(args.source@, r.0@),
        match args.target {
            Some(t) => tilde_expanded(t@, r.1@),
            None => r.1@ == r.0@,
        },
{
    let source = expand_tilde(args.source.as_str());
    let target = match &args.target {
        Some(t) => expand_tilde(t.as_str()),
        None => source.clone(),
    };
    (source, target)
}

/// A path with a leading `~` resolved against the home directory `home`:
/// the `~` and the separators after it are dropped and the rest is joined
/// onto `home` (just `home` when nothing is left). Without a home directory,
/// or without a leading `~`, the path is kept.
pub open spec fn home_resolved(path: Seq<char>, home: Option<Seq<char>>) -> Seq<char> {
    if path.len() > 0 && path[0] == '~' {
        match home {
            Some(h) => {
                let after = trim_start_char(path.drop_first(), '/');
                if after.len() == 0 {
                    h
                } else {
                    path_join_of(h, after)
                }
            },
            None => path,
        }
    } else {
        path
    }
}

/// Resolve a leading `~` of `path` against the home directory `home` (the
/// value of `$HOME`, where it is set).
pub fn resolve_home(path: &str, home: Option<&str>) -> (r: String)
    ensures
        r@ == home_resolved(path@, match home {
            Some(h) => Some(h@),
            None => None,
        }),
{
    if starts_with_char(path, '~') {
        match home {
            Some(h) => {
                let rest = path.substring_char(1, path.unicode_len());
                assert(rest@ =~= path@.drop_first());
                let after = trim_start_matching(rest, '/');
                if after.unicode_len() == 0 {
                    String::from_str(h)
                } else {
                    path_join(h, after)
                }
            },
            None => String::from_str(path),
        }
    } else {
        String::from_str(path)
    }
}

/// The summary printed after a sort.
pub open spec fn summary_text(moved: nat, skipped: nat, errors: nat, dry_run: bool) -> Seq<char> {
    if dry_run {
        "\nDry run: would move "@ + dec_nat(moved) + " files, skip "@ + dec_nat(skipped) + ", "@
            + dec_nat(errors) + " errors"@
    } else {
        "\nSorted "@ + dec_nat(moved) + " files, skipped "@ + dec_nat(skipped) + ", "@ + dec_nat(
            errors,
        ) + " errors"@
    }
}

/// The summary puts each count of the report where its word is: the number
/// of moved files after `Sorted` (or `would move`), the skipped files after
/// `skipped` (or `skip`), and the errors just before the closing `errors`.
pub proof fn law_summary_reports_each_count(moved: nat, skipped: nat, errors: nat, dry_run: bool)
    ensures
        !dry_run ==> summary_text(moved, skipped, errors, dry_run) == "\nSorted "@ + dec_nat(moved)
            + " files, skipped "@ + dec_nat(skipped) + ", "@ + dec_nat(errors) + " errors"@,
        dry_run ==> summary_text(moved, skipped, errors, dry_run) == "\nDry run: would move "@
            + dec_nat(moved) + " files, skip "@ + dec_nat(skipped) + ", "@ + dec_nat(errors)
            + " errors"@,
{
}

/// The summary line of a sort report.
pub fn summary_line(report: &SortReport, dry_run: bool) -> (r: String)
    ensures
        r@ == summary_text(
            report.moved as nat,
            report.skipped as nat,
            report.errors as nat,
            dry_run,
        ),
{
    let moved = u64_to_decimal(report.moved as u64);
    let skipped = u64_to_decimal(report.skipped as u64);
    let errors = u64_to_decimal(report.errors as u64);
    let mut out = String::new();
    if dry_run {
        out.append("\nDry run: would move ");
        out.append(moved.as_str());
        out.append(" files, skip ");
        out.append(skipped.as_str());
        out.append(", ");
        out.append(errors.as_str());
        out.append(" errors");
    } else {
        out.append("\nSorted ");
        out.append(moved.as_str());
        out.append(" files, skipped ");
        out.append(skipped.as_str());
        out.append(", ");
        out.append(errors.as_str());
        out.append(" errors");
    }
    assert(out@ =~= summary_text(
        report.moved as nat,
        report.skipped as nat,
        report.errors as nat,
        dry_run,
    ));
    out
}

} // verus!
