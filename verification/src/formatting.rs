//! The plain-text form of a report, and the exit code of a run.

use crate::decimal::fixed_text;
use crate::decimal::push_fixed;
use crate::error::DpcError;
use crate::output::CompareArtifacts;
use crate::output::CompareOutput;
use crate::output::DpcOutput;
use crate::output::ErrorOutput;
use crate::output::FindingSeverity;
use crate::output::GenerateCodeOutput;
use crate::output::QualityFinding;
use crate::output::QualityOutput;
use crate::output::ResourceDescriptor;
use crate::output::DPC_OUTPUT_VERSION;
use crate::types::metric_results::MetricScores;
use crate::types::view::ResourceKind;
use vstd::prelude::*;
use vstd::string::StringExecFns;

verus! {

/// Exit code of a comparison that passed, and of any run that only informs.
pub const EXIT_OK: u8 = 0;

/// Exit code of a comparison that stayed under its threshold.
pub const EXIT_BELOW_THRESHOLD: u8 = 1;

/// Exit code of a run that failed.
pub const EXIT_FATAL: u8 = 2;

/// No more issues than this are shown.
pub const MAX_ISSUES_SHOWN: usize = 5;

/// The exit code of a comparison.
pub fn exit_code_for_compare(passed: bool) -> (code: u8)
    ensures
        code == if passed {
            EXIT_OK
        } else {
            EXIT_BELOW_THRESHOLD
        },
{
    if passed {
        EXIT_OK
    } else {
        EXIT_BELOW_THRESHOLD
    }
}

/// `text` wrapped in the terminal's code for a color where `colorize`, plain
/// otherwise.
pub open spec fn colored(text: Seq<char>, code: Seq<char>, colorize: bool) -> Seq<char> {
    if colorize {
        "\x1b["@ + code + "m"@ + text + "\x1b[0m"@
    } else {
        text
    }
}

/// Wraps `text` in the terminal's code for a color where `colorize`.
pub fn color(text: &str, code: &str, colorize: bool) -> (r: String)
    ensures
        r@ == colored(text@, code@, colorize),
{
    if colorize {
        let mut r = String::from_str("\x1b[");
        r.append(code);
        r.append("m");
        r.append(text);
        r.append("\x1b[0m");
        r
    } else {
        String::from_str(text)
    }
}

/// The color for a score on its own: green from 0.9, yellow from 0.75, red
/// below.
pub open spec fn score_code(score: u32) -> Seq<char> {
    if score >= 900_000 {
        "32"@
    } else if score >= 750_000 {
        "33"@
    } else {
        "31"@
    }
}

/// The code of the color for a score on its own.
pub fn score_color_code(score: u32) -> (code: &'static str)
    ensures
        code@ == score_code(score),
{
    if score >= 900_000 {
        "32"
    } else if score >= 750_000 {
        "33"
    } else {
        "31"
    }
}

/// The color for a score against a threshold: green where it reaches the
/// threshold, yellow where it misses it by no more than 0.05, red otherwise.
pub open spec fn threshold_code(score: u32, threshold: u32) -> Seq<char> {
    if score >= threshold {
        "32"@
    } else if threshold - score <= 50_000 {
        "33"@
    } else {
        "31"@
    }
}

/// A score with three decimal places, followed by the percentage in brackets.
pub open spec fn score_text(score: u32, threshold: Option<u32>, colorize: bool) -> Seq<char> {
    colored(
        fixed_text(score as nat, 3) + " ("@ + fixed_text(score as nat * 100, 1) + "%)"@,
        match threshold {
            Some(t) => threshold_code(score, t),
            None => score_code(score),
        },
        colorize,
    )
}

fn format_score(score: u32, threshold: Option<u32>, colorize: bool) -> (r: String)
    ensures
        r@ == score_text(score, threshold, colorize),
{
    let mut text = String::new();
    push_fixed(&mut text, score as u128, 3);
    text.append(" (");
    push_fixed(&mut text, score as u128 * 100, 1);
    text.append("%)");
    assert(text@ =~= fixed_text(score as nat, 3) + " ("@ + fixed_text(score as nat * 100, 1)
        + "%)"@);
    let code = match threshold {
        Some(t) => {
            if score >= t {
                "32"
            } else if t - score <= 50_000 {
                "33"
            } else {
                "31"
            }
        },
        None => score_color_code(score),
    };
    color(text.as_str(), code, colorize)
}

/// Each item on a line of its own, behind a dash.
pub open spec fn bullets(items: Seq<Seq<char>>) -> Seq<char>
    decreases items.len(),
{
    if items.len() == 0 {
        Seq::empty()
    } else {
        bullets(items.drop_last()) + "- "@ + items.last() + "\n"@
    }
}

/// The items under a heading; nothing where there are no items.
pub open spec fn section(heading: Seq<char>, items: Seq<Seq<char>>) -> Seq<char> {
    if items.len() == 0 {
        Seq::empty()
    } else {
        heading + "\n"@ + bullets(items)
    }
}

fn push_section(out: &mut String, heading: &str, items: &Vec<String>)
    ensures
        final(out)@ == old(out)@ + section(heading@, items.deep_view()),
{
    let ghost all = items.deep_view();
    if items.len() == 0 {
        assert(final(out)@ =~= old(out)@ + section(heading@, all));
        return ;
    }
    out.append(heading);
    out.append("\n");
    let ghost start = out@;
    let mut i: usize = 0;
    assert(all.take(0) =~= Seq::<Seq<char>>::empty());
    while i < items.len()
        invariant
            i <= items.len(),
            all == items.deep_view(),
            out@ == start + bullets(all.take(i as int)),
        decreases items.len() - i,
    {
        proof {
            assert(all.take(i + 1).drop_last() =~= all.take(i as int));
            assert(all.take(i + 1).last() == items@[i as int]@);
        }
        out.append("- ");
        out.append(items[i].as_str());
        out.append("\n");
        i = i + 1;
        assert(out@ =~= start + bullets(all.take(i as int)));
    }
    assert(all.take(items.len() as int) =~= all);
    assert(final(out)@ =~= old(out)@ + section(heading@, all));
}

/// The first `MAX_ISSUES_SHOWN` issues of the summary, if there is one.
pub open spec fn shown_issues(out: CompareOutput) -> Seq<Seq<char>> {
    match out.summary {
        Some(summary) => {
            let all = summary.top_issues.deep_view();
            if all.len() > MAX_ISSUES_SHOWN {
                all.take(MAX_ISSUES_SHOWN as int)
            } else {
                all
            }
        },
        None => Seq::empty(),
    }
}

/// The line of one metric: its name, padded to twelve columns, and its score.
pub open spec fn metric_item(padded_name: Seq<char>, score: u32, colorize: bool) -> Seq<char> {
    padded_name + " "@ + score_text(score, None, colorize)
}

/// The item where `present`, nothing otherwise.
pub open spec fn item_if(present: bool, item: Seq<char>) -> Seq<Seq<char>> {
    if present {
        seq![item]
    } else {
        Seq::empty()
    }
}

/// One item for each metric that ran.
pub open spec fn metric_items(scores: MetricScores, colorize: bool) -> Seq<Seq<char>> {
    item_if(scores.pixel is Some, metric_item("pixel       "@, scores.pixel->0.score, colorize))
        + item_if(
        scores.layout is Some,
        metric_item("layout      "@, scores.layout->0.score, colorize),
    ) + item_if(
        scores.typography is Some,
        metric_item("typography  "@, scores.typography->0.score, colorize),
    ) + item_if(scores.color is Some, metric_item("color       "@, scores.color->0.score, colorize))
        + item_if(
        scores.content is Some,
        metric_item("content     "@, scores.content->0.score, colorize),
    )
}

/// The item of an optional path: its label, padded to sixteen columns, and
/// the path.
pub open spec fn path_item(padded_label: Seq<char>, path: Option<String>) -> Seq<Seq<char>> {
    match path {
        Some(p) => seq![padded_label + " "@ + p@],
        None => Seq::empty(),
    }
}

/// One item for the directory and for each file that is shown.
pub open spec fn artifact_items(art: CompareArtifacts) -> Seq<Seq<char>> {
    seq!["directory       "@ + " "@ + art.directory@] + path_item(
        "refScreenshot   "@,
        art.ref_screenshot,
    ) + path_item("implScreenshot  "@, art.impl_screenshot) + path_item(
        "diffImage       "@,
        art.diff_image,
    ) + path_item("refDomSnapshot  "@, art.ref_dom_snapshot) + path_item(
        "implDomSnapshot "@,
        art.impl_dom_snapshot,
    )
}

/// The text of a comparison report.
pub open spec fn compare_text(out: CompareOutput, colorize: bool) -> Seq<char> {
    colored(
        if out.passed {
            "PASS"@
        } else {
            "FAIL"@
        },
        if out.passed {
            "32"@
        } else {
            "31"@
        },
        colorize,
    ) + " Design parity check\n"@ + "Similarity: "@ + score_text(
        out.similarity,
        Some(out.threshold),
        colorize,
    ) + " (threshold "@ + fixed_text(out.threshold as nat * 100, 1) + "%)\n"@ + section(
        "Top issues (max 5):"@,
        shown_issues(out),
    ) + section("Metrics:"@, metric_items(out.metrics, colorize)) + (match out.artifacts {
        Some(art) => section("Artifacts:"@, artifact_items(art)),
        None => Seq::empty(),
    })
}

/// The name of a kind of resource.
pub open spec fn kind_name(kind: ResourceKind) -> Seq<char> {
    match kind {
        ResourceKind::Url => "Url"@,
        ResourceKind::Image => "Image"@,
        ResourceKind::Figma => "Figma"@,
    }
}

/// The name of a severity.
pub open spec fn severity_name(severity: FindingSeverity) -> Seq<char> {
    match severity {
        FindingSeverity::Info => "Info"@,
        FindingSeverity::Warning => "Warning"@,
    }
}

/// The line that names the input.
pub open spec fn input_text(input: ResourceDescriptor) -> Seq<char> {
    "Input: "@ + input.value@ + " (kind: "@ + kind_name(input.kind) + ")\n"@
}

/// The text of a code-generation report.
pub open spec fn generate_text(out: GenerateCodeOutput, colorize: bool) -> Seq<char> {
    colored("[GENERATE]"@, "36"@, colorize) + " Code generation (stub)\n"@ + input_text(out.input)
        + (match out.summary {
        Some(summary) => section("Notes:"@, summary.top_issues.deep_view()),
        None => Seq::empty(),
    })
}

/// One item for each finding: its severity in brackets, and its message.
pub open spec fn finding_items(findings: Seq<QualityFinding>) -> Seq<Seq<char>> {
    Seq::new(
        findings.len(),
        |i: int| "["@ + severity_name(findings[i].severity) + "] "@ + findings[i].message@,
    )
}

/// The text of a quality report.
pub open spec fn quality_text(out: QualityOutput, colorize: bool) -> Seq<char> {
    colored("[QUALITY]"@, "34"@, colorize) + " Score "@ + fixed_text(out.score as nat * 100, 1)
        + "\n"@ + input_text(out.input) + section("Findings:"@, finding_items(out.findings@))
}

/// The text of an error report: the message of the report, or that of the
/// error where the report has none, and the hint if there is one.
pub open spec fn error_text(out: ErrorOutput, colorize: bool) -> Seq<char> {
    colored("[ERROR]"@, "31"@, colorize) + " "@ + (match out.message {
        Some(m) => m@,
        None => out.error.message@,
    }) + "\n"@ + (match out.error.remediation {
        Some(hint) => "Hint: "@ + hint@ + "\n"@,
        None => Seq::empty(),
    })
}

/// The text of any report.
pub open spec fn pretty_text(body: DpcOutput, colorize: bool) -> Seq<char> {
    match body {
        DpcOutput::Compare(out) => compare_text(out, colorize),
        DpcOutput::GenerateCode(out) => generate_text(out, colorize),
        DpcOutput::Quality(out) => quality_text(out, colorize),
        DpcOutput::Error(out) => error_text(out, colorize),
    }
}

fn push_input(text: &mut String, input: &ResourceDescriptor)
    ensures
        final(text)@ == old(text)@ + input_text(*input),
{
    text.append("Input: ");
    text.append(input.value.as_str());
    text.append(" (kind: ");
    text.append(
        match input.kind {
            ResourceKind::Url => "Url",
            ResourceKind::Image => "Image",
            ResourceKind::Figma => "Figma",
        },
    );
    text.append(")\n");
    assert(final(text)@ =~= old(text)@ + input_text(*input));
}

fn metric_line(padded_name: &str, score: u32, colorize: bool) -> (r: String)
    ensures
        r@ == metric_item(padded_name@, score, colorize),
{
    let mut r = String::from_str(padded_name);
    r.append(" ");
    let styled = format_score(score, None, colorize);
    r.append(styled.as_str());
    r
}

fn metric_lines(scores: &MetricScores, colorize: bool) -> (items: Vec<String>)
    ensures
        items.deep_view() == metric_items(*scores, colorize),
{
    let mut items: Vec<String> = Vec::new();
    if let Some(m) = &scores.pixel {
        items.push(metric_line("pixel       ", m.score, colorize));
    }
    let ghost a = items.deep_view();
    assert(a =~= item_if(
        scores.pixel is Some,
        metric_item("pixel       "@, scores.pixel->0.score, colorize),
    ));
    if let Some(m) = &scores.layout {
        items.push(metric_line("layout      ", m.score, colorize));
    }
    let ghost b = items.deep_view();
    assert(b =~= a + item_if(
        scores.layout is Some,
        metric_item("layout      "@, scores.layout->0.score, colorize),
    ));
    if let Some(m) = &scores.typography {
        items.push(metric_line("typography  ", m.score, colorize));
    }
    let ghost c = items.deep_view();
    assert(c =~= b + item_if(
        scores.typography is Some,
        metric_item("typography  "@, scores.typography->0.score, colorize),
    ));
    if let Some(m) = &scores.color {
        items.push(metric_line("color       ", m.score, colorize));
    }
    let ghost d = items.deep_view();
    assert(d =~= c + item_if(
        scores.color is Some,
        metric_item("color       "@, scores.color->0.score, colorize),
    ));
    if let Some(m) = &scores.content {
        items.push(metric_line("content     ", m.score, colorize));
    }
    assert(items.deep_view() =~= d + item_if(
        scores.content is Some,
        metric_item("content     "@, scores.content->0.score, colorize),
    ));
    items
}

fn push_path_item(items: &mut Vec<String>, padded_label: &str, path: &Option<String>)
    ensures
        final(items).deep_view() == old(items).deep_view() + path_item(padded_label@, *path),
{
    if let Some(p) = path {
        let mut line = String::from_str(padded_label);
        line.append(" ");
        line.append(p.as_str());
        items.push(line);
    }
    assert(final(items).deep_view() =~= old(items).deep_view() + path_item(padded_label@, *path));
}

fn artifact_lines(art: &CompareArtifacts) -> (items: Vec<String>)
    ensures
        items.deep_view() == artifact_items(*art),
{
    let mut items: Vec<String> = Vec::new();
    let mut first = String::from_str("directory       ");
    first.append(" ");
    first.append(art.directory.as_str());
    items.push(first);
    assert(items.deep_view() =~= seq!["directory       "@ + " "@ + art.directory@]);
    push_path_item(&mut items, "refScreenshot   ", &art.ref_screenshot);
    push_path_item(&mut items, "implScreenshot  ", &art.impl_screenshot);
    push_path_item(&mut items, "diffImage       ", &art.diff_image);
    push_path_item(&mut items, "refDomSnapshot  ", &art.ref_dom_snapshot);
    push_path_item(&mut items, "implDomSnapshot ", &art.impl_dom_snapshot);
    items
}

fn issue_lines(out: &CompareOutput) -> (items: Vec<String>)
    ensures
        items.deep_view() == shown_issues(*out),
{
    let mut items: Vec<String> = Vec::new();
    if let Some(summary) = &out.summary {
        let ghost all = summary.top_issues.deep_view();
        let shown = if summary.top_issues.len() > MAX_ISSUES_SHOWN {
            MAX_ISSUES_SHOWN
        } else {
            summary.top_issues.len()
        };
        let mut i: usize = 0;
        while i < shown
            invariant
                i <= shown <= summary.top_issues.len(),
                all == summary.top_issues.deep_view(),
                items.deep_view() == all.take(i as int),
            decreases shown - i,
        {
            let line = summary.top_issues[i].clone();
            assert(line@ == all[i as int]);
            let ghost before = items.deep_view();
            items.push(line);
            assert(items.deep_view() =~= before.push(line@));
            i = i + 1;
            assert(items.deep_view() =~= all.take(i as int));
        }
        assert(all.take(all.len() as int) =~= all);
    }
    assert(items.deep_view() =~= shown_issues(*out));
    items
}

fn format_compare(out: &CompareOutput, colorize: bool) -> (text: String)
    ensures
        text@ == compare_text(*out, colorize),
{
    let mut text = color(
        if out.passed {
            "PASS"
        } else {
            "FAIL"
        },
        if out.passed {
            "32"
        } else {
            "31"
        },
        colorize,
    );
    text.append(" Design parity check\n");
    text.append("Similarity: ");
    let similarity = format_score(out.similarity, Some(out.threshold), colorize);
    text.append(similarity.as_str());
    text.append(" (threshold ");
    push_fixed(&mut text, out.threshold as u128 * 100, 1);
    text.append("%)\n");
    let ghost head = text@;
    let issues = issue_lines(out);
    push_section(&mut text, "Top issues (max 5):", &issues);
    let metrics = metric_lines(&out.metrics, colorize);
    push_section(&mut text, "Metrics:", &metrics);
    if let Some(art) = &out.artifacts {
        let paths = artifact_lines(art);
        push_section(&mut text, "Artifacts:", &paths);
    }
    assert(text@ =~= head + section("Top issues (max 5):"@, shown_issues(*out)) + section(
        "Metrics:"@,
        metric_items(out.metrics, colorize),
    ) + (match out.artifacts {
        Some(art) => section("Artifacts:"@, artifact_items(art)),
        None => Seq::empty(),
    }));
    assert(text@ =~= compare_text(*out, colorize));
    text
}

fn format_generate(out: &GenerateCodeOutput, colorize: bool) -> (text: String)
    ensures
        text@ == generate_text(*out, colorize),
{
    let mut text = color("[GENERATE]", "36", colorize);
    text.append(" Code generation (stub)\n");
    push_input(&mut text, &out.input);
    if let Some(summary) = &out.summary {
        push_section(&mut text, "Notes:", &summary.top_issues);
    }
    assert(text@ =~= generate_text(*out, colorize));
    text
}

fn finding_lines(findings: &Vec<QualityFinding>) -> (items: Vec<String>)
    ensures
        items.deep_view() == finding_items(findings@),
{
    let mut items: Vec<String> = Vec::new();
    let mut i: usize = 0;
    while i < findings.len()
        invariant
            i <= findings.len(),
            items.len() == i,
            forall|k: int| 0 <= k < i ==> (#[trigger] items@[k])@ == finding_items(findings@)[k],
        decreases findings.len() - i,
    {
        let mut line = String::from_str("[");
        line.append(
            match findings[i].severity {
                FindingSeverity::Info => "Info",
                FindingSeverity::Warning => "Warning",
            },
        );
        line.append("] ");
        line.append(findings[i].message.as_str());
        items.push(line);
        i = i + 1;
    }
    assert(items.deep_view() =~= finding_items(findings@));
    items
}

fn format_quality(out: &QualityOutput, colorize: bool) -> (text: String)
    ensures
        text@ == quality_text(*out, colorize),
{
    let mut text = color("[QUALITY]", "34", colorize);
    text.append(" Score ");
    push_fixed(&mut text, out.score as u128 * 100, 1);
    text.append("\n");
    push_input(&mut text, &out.input);
    let items = finding_lines(&out.findings);
    push_section(&mut text, "Findings:", &items);
    assert(text@ =~= quality_text(*out, colorize));
    text
}

fn format_error(out: &ErrorOutput, colorize: bool) -> (text: String)
    ensures
        text@ == error_text(*out, colorize),
{
    let mut text = color("[ERROR]", "31", colorize);
    text.append(" ");
    match &out.message {
        Some(m) => text.append(m.as_str()),
        None => text.append(out.error.message.as_str()),
    }
    text.append("\n");
    if let Some(hint) = &out.error.remediation {
        text.append("Hint: ");
        text.append(hint.as_str());
        text.append("\n");
    }
    assert(text@ =~= error_text(*out, colorize));
    text
}

/// Renders a report as plain text, in color where `colorize`.
pub fn format_pretty(body: &DpcOutput, colorize: bool) -> (text: String)
    ensures
        text@ == pretty_text(*body, colorize),
{
    match body {
        DpcOutput::Compare(out) => format_compare(out, colorize),
        DpcOutput::GenerateCode(out) => format_generate(out, colorize),
        DpcOutput::Quality(out) => format_quality(out, colorize),
        DpcOutput::Error(out) => format_error(out, colorize),
    }
}

/// The report of a failure: the payload of the error, with its message
/// repeated at the top level.
pub fn error_output(err: &DpcError) -> (out: ErrorOutput)
    ensures
        out.version@ == DPC_OUTPUT_VERSION@,
        out.message is Some && out.message->0@ == err.message(),
        out.error.category == err.category(),
        out.error.message@ == err.message(),
        out.error.remediation is Some && out.error.remediation->0@ == err.remediation(),
{
    let payload = err.to_payload();
    ErrorOutput {
        version: String::from_str(DPC_OUTPUT_VERSION),
        message: Some(payload.message.clone()),
        error: payload,
    }
}

} // verus!
