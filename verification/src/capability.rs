//! Capability probing: whether the wireless hardware can run an access point
//! and a managed connection at once, read from the capability listing of the
//! wireless stack.

use crate::pattern::{is_match, regex_accepts, regex_is_match, PatternError};
use crate::text::{chars_of, contains, lemma_texts_push, lines, split_lines, str_contains, texts};
use vstd::prelude::*;
use vstd::string::*;

verus! {

/// The words that open a section of interface combinations.
pub const SECTION_HEADER: &'static str = "valid interface combinations";

/// A mode list in braces that holds the word `managed`, in any case.
pub const MANAGED_PATTERN: &'static str = r"(?i)#\{[^}]*\bmanaged\b[^}]*\}";

/// A mode list in braces that holds the word `ap`, in any case.
pub const AP_PATTERN: &'static str = r"(?i)#\{[^}]*\bap\b[^}]*\}";

/// The detail reported when both modes are supported together.
pub const DETAIL_SUPPORTED: &'static str = "AP+Managed supported";

/// The detail reported when no combination line lists both modes.
pub const DETAIL_NOT_FOUND: &'static str = "AP+Managed not found";

/// What the detail for a listing that could not be had begins with; the
/// error of the failed query follows.
pub const QUERY_FAILED_PREFIX: &'static str = "iw list failed: ";

/// The tool that lists the capabilities of the wireless stack, and its
/// argument.
pub const QUERY_PROGRAM: &'static str = "iw";

pub const QUERY_ARGUMENT: &'static str = "list";

/// The outcome of the capability probe.
#[derive(Debug, Clone, PartialEq, Eq)]
pub struct CompatibilityResult {
    pub supported: bool,
    pub detail: String,
}

/// A probe's outcome over plain values.
pub struct CompatibilityView {
    pub supported: bool,
    pub detail: Seq<char>,
}

impl View for CompatibilityResult {
    type V = CompatibilityView;

    open spec fn view(&self) -> CompatibilityView {
        CompatibilityView { supported: self.supported, detail: self.detail@ }
    }
}

/// What one combination line lists: whether some mode list on it names the
/// managed mode, and whether some mode list on it names the access point mode.
#[derive(Debug, Clone, Copy, PartialEq, Eq)]
pub struct ModeLists {
    pub managed: bool,
    pub ap: bool,
}

/// Whether a line opens a section of interface combinations.
pub open spec fn is_header(line: Seq<char>) -> bool {
    contains(line, SECTION_HEADER@)
}

/// Whether a line closes an open section: it is neither blank nor indented by
/// a tab or a space.
pub open spec fn closes_section(line: Seq<char>) -> bool {
    line.len() > 0 && line[0] != '\t' && line[0] != ' '
}

/// Whether a section of interface combinations is open after `lines` have
/// been read.
pub open spec fn section_open(lines: Seq<Seq<char>>) -> bool
    decreases lines.len(),
{
    if lines.len() == 0 {
        false
    } else {
        is_header(lines.last()) || (section_open(lines.drop_last()) && !closes_section(
            lines.last(),
        ))
    }
}

/// Whether the last of `lines` is a combination line: it stands in an open
/// section, and neither opens one nor closes it.
pub open spec fn ends_in_combination(lines: Seq<Seq<char>>) -> bool {
    &&& lines.len() > 0
    &&& !is_header(lines.last())
    &&& !closes_section(lines.last())
    &&& section_open(lines.drop_last())
}

/// The combination lines among `lines`, in order.
pub open spec fn combinations(lines: Seq<Seq<char>>) -> Seq<Seq<char>>
    decreases lines.len(),
{
    if lines.len() == 0 {
        Seq::empty()
    } else if ends_in_combination(lines) {
        combinations(lines.drop_last()).push(lines.last())
    } else {
        combinations(lines.drop_last())
    }
}

/// Whether a line lists both modes, each in some mode list.
pub open spec fn lists_both(line: Seq<char>) -> bool {
    regex_is_match(MANAGED_PATTERN@, line) && regex_is_match(AP_PATTERN@, line)
}

/// Whether some line of `found` lists both modes.
pub open spec fn any_lists_both(found: Seq<ModeLists>) -> bool {
    exists|i: int| 0 <= i < found.len() && found[i].managed && found[i].ap
}

/// The outcome for a probe that did or did not find a qualifying line.
pub open spec fn outcome(supported: bool) -> CompatibilityView {
    CompatibilityView {
        supported,
        detail: if supported {
            DETAIL_SUPPORTED@
        } else {
            DETAIL_NOT_FOUND@
        },
    }
}

/// Whether the capability listing `output` shows support for an access point
/// beside a managed connection: some combination line lists both modes.
pub open spec fn supports_ap_managed(output: Seq<char>) -> bool {
    let found = combinations(lines(output));
    exists|i: int| 0 <= i < found.len() && lists_both(found[i])
}

fn line_closes_section(line: &str) -> (r: bool)
    ensures
        r == closes_section(line@),
{
    let chars = chars_of(line);
    chars.len() > 0 && chars[0] != '\t' && chars[0] != ' '
}

/// The combination lines of a capability listing: the lines that stand in a
/// section of valid interface combinations.
pub fn combination_lines(output: &str) -> (found: Vec<String>)
    ensures
        texts(found@) == combinations(lines(output@)),
{
    let all = split_lines(output);
    let mut found: Vec<String> = Vec::new();
    let mut open = false;
    let mut i: usize = 0;
    while i < all.len()
        invariant
            i <= all.len(),
            open == section_open(texts(all@).take(i as int)),
            texts(found@) == combinations(texts(all@).take(i as int)),
        decreases all.len() - i,
    {
        let ghost read = texts(all@).take(i + 1);
        assert(read.drop_last() =~= texts(all@).take(i as int));
        let line = all[i].as_str();
        if str_contains(line, SECTION_HEADER) {
            open = true;
        } else if open {
            if line_closes_section(line) {
                open = false;
            } else {
                proof {
                    lemma_texts_push(found@, all@[i as int]);
                }
                found.push(all[i].clone());
            }
        }
        i += 1;
    }
    assert(texts(all@).take(i as int) =~= texts(all@));
    found
}

/// Whether the expression engine accepts the two patterns of the probe.
pub open spec fn patterns_accepted() -> bool {
    regex_accepts(MANAGED_PATTERN@) && regex_accepts(AP_PATTERN@)
}

/// What a combination line lists. There is an answer exactly where the
/// expression engine accepts the two patterns.
pub fn mode_lists(line: &str) -> (r: Result<ModeLists, PatternError>)
    ensures
        r is Ok <==> patterns_accepted(),
        r matches Ok(m) ==> m.managed == regex_is_match(MANAGED_PATTERN@, line@) && m.ap
            == regex_is_match(AP_PATTERN@, line@),
{
    let managed = is_match(MANAGED_PATTERN, line)?;
    let ap = is_match(AP_PATTERN, line)?;
    Ok(ModeLists { managed, ap })
}

/// The probe's outcome, given what each combination line lists: support is
/// there when some line lists both modes.
pub fn classify(found: &Vec<ModeLists>) -> (result: CompatibilityResult)
    ensures
        result@ == outcome(any_lists_both(found@)),
{
    let mut i: usize = 0;
    while i < found.len()
        invariant
            i <= found.len(),
            forall|k: int| 0 <= k < i ==> !(found@[k].managed && found@[k].ap),
        decreases found.len() - i,
    {
        if found[i].managed && found[i].ap {
            return CompatibilityResult {
                supported: true,
                detail: String::from_str(DETAIL_SUPPORTED),
            };
        }
        i += 1;
    }
    CompatibilityResult { supported: false, detail: String::from_str(DETAIL_NOT_FOUND) }
}

/// The probe's outcome where the capability listing could not be had: no
/// support, and the detail carries the error of the query.
pub fn query_failed(error: &str) -> (result: CompatibilityResult)
    ensures
        result@ == (CompatibilityView { supported: false, detail: QUERY_FAILED_PREFIX@ + error@ }),
{
    let mut detail = String::from_str(QUERY_FAILED_PREFIX);
    detail.append(error);
    CompatibilityResult { supported: false, detail }
}

/// Decides from the capability listing of the wireless stack whether an
/// access point can run beside a managed connection. The combination lines
/// are read in order, up to the first that lists both modes.
///
/// There is an answer exactly where the expression engine accepts the two
/// patterns, or the listing has no combination line to search.
pub fn check_compatibility(output: &str) -> (r: Result<CompatibilityResult, PatternError>)
    ensures
        r is Ok <==> combinations(lines(output@)).len() == 0 || patterns_accepted(),
        r matches Ok(result) ==> result@ == outcome(supports_ap_managed(output@)),
{
    let listed = combination_lines(output);
    let mut found: Vec<ModeLists> = Vec::new();
    let mut hit = false;
    let mut i: usize = 0;
    while i < listed.len() && !hit
        invariant
            i <= listed.len(),
            found.len() == i,
            texts(listed@) == combinations(lines(output@)),
            forall|k: int|
                0 <= k < i ==> ((#[trigger] found@[k]).managed && found@[k].ap) == lists_both(
                    listed@[k]@,
                ),
            hit ==> i > 0 && found@[i - 1].managed && found@[i - 1].ap,
            i > 0 ==> patterns_accepted(),
        decreases listed.len() - i,
    {
        let lists = mode_lists(listed[i].as_str())?;
        hit = lists.managed && lists.ap;
        found.push(lists);
        i += 1;
    }
    proof {
        // A line that lists both modes is found as such, and the other way
        // round, unless one was found before it.
        let wanted = combinations(lines(output@));
        if any_lists_both(found@) {
            let k = choose|k: int| 0 <= k < found.len() && found@[k].managed && found@[k].ap;
            assert(lists_both(wanted[k])) by {
                assert(wanted[k] == texts(listed@)[k]);
            }
        }
        if supports_ap_managed(output@) && !hit {
            let k = choose|k: int| 0 <= k < wanted.len() && lists_both(wanted[k]);
            assert(wanted[k] == texts(listed@)[k]);
            assert(found@[k].managed && found@[k].ap);
        }
    }
    Ok(classify(&found))
}

} // verus!
