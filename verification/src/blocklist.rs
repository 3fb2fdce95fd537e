//! The block list store: blocked hardware addresses, kept in one text with an
//! upper-case address on each line.
//!
//! Reading and writing the text is left to the caller. The functions here say
//! what a stored text lists, what the text becomes when an address is blocked,
//! and what it becomes when an address is taken out. Blocking and unblocking
//! are attempts that the caller carries out action by action.

use crate::privileged::{direct_command, shell_arguments, submit_line, SETTLE_MILLIS};
use crate::text::{
    complete, complete_text, completion, eq_ignore_ascii_case, eq_ignoring_case, free_of,
    lemma_completion, lemma_eq_ignoring_case_upper, lemma_lines_free_of_line_feed,
    lemma_lines_of_written, lemma_lines_push, lemma_texts_push, lemma_upper_is_final, lines,
    split_lines, texts, to_upper, upper, write_lines, written,
};
use vstd::prelude::*;
use vstd::string::*;

verus! {

/// Where the stored text is kept.
pub const BLOCKLIST_FILE: &'static str = "/tmp/idkspot_blocked_macs.txt";

/// The entries that `lines` hold: the upper-case form of every line that is
/// not empty, in order, each once.
pub open spec fn entries(lines: Seq<Seq<char>>) -> Seq<Seq<char>>
    decreases lines.len(),
{
    if lines.len() == 0 {
        Seq::empty()
    } else {
        let before = entries(lines.drop_last());
        if lines.last().len() == 0 || before.contains(upper(lines.last())) {
            before
        } else {
            before.push(upper(lines.last()))
        }
    }
}

/// The addresses that a stored text lists.
pub open spec fn blocked(content: Seq<char>) -> Seq<Seq<char>> {
    entries(lines(content))
}

/// The line that stores `mac`: the address in upper case, and a line feed.
pub open spec fn record(mac: Seq<char>) -> Seq<char> {
    upper(mac).push('\n')
}

/// The stored text after `mac` was blocked: the text, completed where its
/// last line had no ending, and the record of the address.
pub open spec fn with_entry(content: Seq<char>, mac: Seq<char>) -> Seq<char> {
    content + completion(content) + record(mac)
}

/// The lines that stay when `mac` is taken out: those that differ from it by
/// more than the case of ASCII letters.
pub open spec fn kept(lines: Seq<Seq<char>>, mac: Seq<char>) -> Seq<Seq<char>>
    decreases lines.len(),
{
    if lines.len() == 0 {
        Seq::empty()
    } else if eq_ignoring_case(lines.last(), mac) {
        kept(lines.drop_last(), mac)
    } else {
        kept(lines.drop_last(), mac).push(lines.last())
    }
}

/// The stored text after `mac` was taken out: the lines that stay, each with
/// its ending.
pub open spec fn without_entry(content: Seq<char>, mac: Seq<char>) -> Seq<char> {
    written(kept(lines(content), mac))
}

/// A list without the entries that are `address`, the others in their order.
pub open spec fn taken_out(list: Seq<Seq<char>>, address: Seq<char>) -> Seq<Seq<char>>
    decreases list.len(),
{
    if list.len() == 0 {
        Seq::empty()
    } else if list.last() == address {
        taken_out(list.drop_last(), address)
    } else {
        taken_out(list.drop_last(), address).push(list.last())
    }
}

/// Whether a text can stand for an address on a line of its own: it is not
/// empty, holds no line feed, and does not end with a carriage return.
pub open spec fn is_one_line(mac: Seq<char>) -> bool {
    mac.len() > 0 && free_of(mac, '\n') && mac.last() != '\r'
}

/// Whether no text occurs twice in a list.
pub open spec fn distinct(list: Seq<Seq<char>>) -> bool {
    forall|i: int, j: int| 0 <= i < j < list.len() ==> list[i] != list[j]
}

/// Whether `mac`, as it is written, is among the blocked addresses.
pub fn is_blocked(list: &Vec<String>, mac: &str) -> (found: bool)
    ensures
        found == texts(list@).contains(mac@),
{
    let wanted = String::from_str(mac);
    let mut i: usize = 0;
    while i < list.len()
        invariant
            i <= list.len(),
            wanted@ == mac@,
            forall|k: int| 0 <= k < i ==> texts(list@)[k] != mac@,
        decreases list.len() - i,
    {
        if list[i].eq(&wanted) {
            assert(texts(list@)[i as int] == mac@);
            return true;
        }
        i += 1;
    }
    false
}

/// No entry occurs twice.
pub proof fn lemma_entries_distinct(lines: Seq<Seq<char>>)
    ensures
        distinct(entries(lines)),
    decreases lines.len(),
{
    if lines.len() > 0 {
        lemma_entries_distinct(lines.drop_last());
    }
}

/// Lists the addresses that a stored text holds: the upper-case form of each
/// line that is not empty, and none twice.
pub fn load_blocklist(content: &str) -> (list: Vec<String>)
    ensures
        texts(list@) == blocked(content@),
        forall|i: int, j: int| 0 <= i < j < list.len() ==> list[i]@ != list[j]@,
{
    let all = split_lines(content);
    let mut list: Vec<String> = Vec::new();
    let mut i: usize = 0;
    while i < all.len()
        invariant
            i <= all.len(),
            texts(all@) == lines(content@),
            texts(list@) == entries(texts(all@).take(i as int)),
        decreases all.len() - i,
    {
        let ghost read = texts(all@).take(i + 1);
        assert(read.drop_last() =~= texts(all@).take(i as int));
        let line = all[i].as_str();
        if !line.is_empty() {
            let entry = to_upper(line);
            if !is_blocked(&list, entry.as_str()) {
                proof {
                    lemma_texts_push(list@, entry);
                }
                list.push(entry);
            }
        }
        i += 1;
    }
    proof {
        assert(texts(all@).take(i as int) =~= texts(all@));
        lemma_entries_distinct(lines(content@));
        assert forall|i: int, j: int| 0 <= i < j < list.len() implies list[i]@ != list[j]@ by {
            assert(texts(list@)[i] == list[i]@ && texts(list@)[j] == list[j]@);
        }
    }
    list
}

/// The stored text after `mac` was blocked: what it held, and the address in
/// upper case on a line of its own at the end.
pub fn add_to_blocklist(content: &str, mac: &str) -> (stored: String)
    ensures
        stored@ == with_entry(content@, mac@),
        complete(stored@),
        is_one_line(mac@) ==> blocked(stored@) == if blocked(content@).contains(upper(mac@)) {
            blocked(content@)
        } else {
            blocked(content@).push(upper(mac@))
        },
{
    let mut stored = complete_text(content);
    stored.append(to_upper(mac).as_str());
    stored.push('\n');
    proof {
        assert(stored@ =~= with_entry(content@, mac@));
        lemma_stored_texts_are_complete(content@, mac@);
        if is_one_line(mac@) {
            lemma_blocked_after_add(content@, mac@);
        }
    }
    stored
}

/// The stored text after `mac` was taken out: what it held without the lines
/// that hold the address, in whatever case, each line with its ending.
pub fn remove_from_blocklist(content: &str, mac: &str) -> (rest: String)
    ensures
        rest@ == without_entry(content@, mac@),
        complete(rest@),
        lines(rest@) == kept(lines(content@), mac@),
        blocked(rest@) == taken_out(blocked(content@), upper(mac@)),
        !blocked(rest@).contains(upper(mac@)),
{
    let all = split_lines(content);
    let mut staying: Vec<String> = Vec::new();
    let mut i: usize = 0;
    while i < all.len()
        invariant
            i <= all.len(),
            texts(all@) == lines(content@),
            texts(staying@) == kept(texts(all@).take(i as int), mac@),
        decreases all.len() - i,
    {
        let ghost read = texts(all@).take(i + 1);
        assert(read.drop_last() =~= texts(all@).take(i as int));
        if !eq_ignore_ascii_case(all[i].as_str(), mac) {
            proof {
                lemma_texts_push(staying@, all@[i as int]);
            }
            staying.push(all[i].clone());
        }
        i += 1;
    }
    proof {
        assert(texts(all@).take(i as int) =~= texts(all@));
        lemma_stored_texts_are_complete(content@, mac@);
        lemma_blocked_after_remove(content@, mac@);
    }
    write_lines(&staying)
}

/// An entry is listed exactly when it is the upper-case form of a line that
/// is not empty.
pub proof fn lemma_entry_iff_line(lines: Seq<Seq<char>>, entry: Seq<char>)
    ensures
        entries(lines).contains(entry) <==> exists|i: int|
            0 <= i < lines.len() && (#[trigger] lines[i]).len() > 0 && upper(lines[i]) == entry,
    decreases lines.len(),
{
    if lines.len() > 0 {
        let init = lines.drop_last();
        let before = entries(init);
        let all = entries(lines);
        lemma_entry_iff_line(init, entry);
        if all.contains(entry) {
            if before.contains(entry) {
                let i = choose|i: int|
                    0 <= i < init.len() && (#[trigger] init[i]).len() > 0 && upper(init[i])
                        == entry;
                assert(lines[i] == init[i]);
            } else {
                let k = choose|k: int| 0 <= k < all.len() && all[k] == entry;
                if k < before.len() {
                    assert(before[k] == entry);
                }
                assert(lines[lines.len() - 1] == lines.last());
            }
        }
        if exists|i: int|
            0 <= i < lines.len() && (#[trigger] lines[i]).len() > 0 && upper(lines[i]) == entry {
            let i = choose|i: int|
                0 <= i < lines.len() && (#[trigger] lines[i]).len() > 0 && upper(lines[i])
                    == entry;
            if i < init.len() {
                assert(init[i] == lines[i]);
                let k = choose|k: int| 0 <= k < before.len() && before[k] == entry;
                assert(all[k] == entry);
            } else if before.contains(entry) {
                let k = choose|k: int| 0 <= k < before.len() && before[k] == entry;
                assert(all[k] == entry);
            } else {
                assert(all[all.len() - 1] == entry);
            }
        }
    }
}

/// Every line that stays is one of the lines and is not the address that was
/// taken out, and every line that is not that address stays.
pub proof fn lemma_kept_iff_line(lines: Seq<Seq<char>>, mac: Seq<char>, line: Seq<char>)
    ensures
        kept(lines, mac).contains(line) <==> lines.contains(line) && !eq_ignoring_case(line, mac),
    decreases lines.len(),
{
    if lines.len() > 0 {
        let init = lines.drop_last();
        let before = kept(init, mac);
        let all = kept(lines, mac);
        lemma_kept_iff_line(init, mac, line);
        if all.contains(line) {
            let k = choose|k: int| 0 <= k < all.len() && all[k] == line;
            if k < before.len() {
                assert(before[k] == line);
                let i = choose|i: int| 0 <= i < init.len() && init[i] == line;
                assert(lines[i] == line);
            } else {
                assert(lines[lines.len() - 1] == line);
            }
        }
        if lines.contains(line) && !eq_ignoring_case(line, mac) {
            let i = choose|i: int| 0 <= i < lines.len() && lines[i] == line;
            if i < init.len() {
                assert(init[i] == line);
                let k = choose|k: int| 0 <= k < before.len() && before[k] == line;
                assert(all[k] == line);
            } else {
                assert(all[all.len() - 1] == line);
            }
        }
    }
}

/// Every address that a stored text lists is in its stored form, not empty
/// and in upper case, and none is listed twice.
pub proof fn lemma_blocked_are_canonical(content: Seq<char>)
    ensures
        forall|i: int|
            0 <= i < blocked(content).len() ==> (#[trigger] blocked(content)[i]).len() > 0 && upper(
                blocked(content)[i],
            ) == blocked(content)[i],
        distinct(blocked(content)),
{
    lemma_entries_distinct(lines(content));
    assert forall|i: int| 0 <= i < blocked(content).len() implies (#[trigger] blocked(
        content,
    )[i]).len() > 0 && upper(blocked(content)[i]) == blocked(content)[i] by {
        let entry = blocked(content)[i];
        lemma_entry_iff_line(lines(content), entry);
        let k = choose|k: int|
            0 <= k < lines(content).len() && (#[trigger] lines(content)[k]).len() > 0 && upper(
                lines(content)[k],
            ) == entry;
        lemma_upper_is_final(lines(content)[k]);
    }
}

/// The stored texts that this module writes are complete: the text after an
/// address was blocked, and the text after one was taken out.
pub proof fn lemma_stored_texts_are_complete(content: Seq<char>, mac: Seq<char>)
    ensures
        complete(with_entry(content, mac)),
        complete(without_entry(content, mac)),
{
    lemma_lines_free_of_line_feed(content);
    assert forall|j: int| 0 <= j < kept(lines(content), mac).len() implies free_of(
        #[trigger] kept(lines(content), mac)[j],
        '\n',
    ) by {
        lemma_kept_line_is_free(lines(content), mac, j);
    }
    lemma_lines_of_written(kept(lines(content), mac));
}

/// A line that stays holds no line feed where no line does.
proof fn lemma_kept_line_is_free(lines: Seq<Seq<char>>, mac: Seq<char>, j: int)
    requires
        forall|i: int| 0 <= i < lines.len() ==> free_of(#[trigger] lines[i], '\n'),
        0 <= j < kept(lines, mac).len(),
    ensures
        free_of(kept(lines, mac)[j], '\n'),
{
    let line = kept(lines, mac)[j];
    assert(kept(lines, mac).contains(line));
    lemma_kept_iff_line(lines, mac, line);
    let i = choose|i: int| 0 <= i < lines.len() && lines[i] == line;
    assert(free_of(lines[i], '\n'));
}

/// Blocking an address adds it to the list, whatever the stored text: the
/// text lists what it listed before, and the address in upper case as its
/// last entry unless it was listed already. The address must be fit for a
/// line of its own.
pub proof fn lemma_blocked_after_add(content: Seq<char>, mac: Seq<char>)
    requires
        is_one_line(mac),
    ensures
        blocked(with_entry(content, mac)) == if blocked(content).contains(upper(mac)) {
            blocked(content)
        } else {
            blocked(content).push(upper(mac))
        },
        forall|entry: Seq<char>|
            blocked(with_entry(content, mac)).contains(entry) <==> blocked(content).contains(entry)
                || entry == upper(mac),
{
    let address = upper(mac);
    let completed = content + completion(content);
    lemma_completion(content);
    assert(free_of(address, '\n')) by {
        assert forall|i: int| 0 <= i < address.len() implies address[i] != '\n' by {
            assert(mac[i] != '\n');
        }
    }
    assert(address.last() != '\r') by {
        assert(address.last() == address[mac.len() - 1]);
    }
    lemma_lines_push(completed, address);
    assert(with_entry(content, mac) =~= completed + address + seq!['\n']);
    assert(record(mac) =~= address + seq!['\n']);
    let after = lines(with_entry(content, mac));
    assert(after == lines(content).push(address));
    assert(after.drop_last() =~= lines(content));
    lemma_upper_is_final(mac);
    assert forall|entry: Seq<char>|
        blocked(with_entry(content, mac)).contains(entry) <==> blocked(content).contains(entry)
            || entry == address by {
        lemma_entry_iff_line(after, entry);
        lemma_entry_iff_line(lines(content), entry);
        if exists|i: int| 0 <= i < after.len() && (#[trigger] after[i]).len() > 0 && upper(after[i]) == entry {
            let i = choose|i: int|
                0 <= i < after.len() && (#[trigger] after[i]).len() > 0 && upper(after[i])
                    == entry;
            if i < lines(content).len() {
                assert(lines(content)[i] == after[i]);
            }
        }
        if blocked(content).contains(entry) {
            let i = choose|i: int|
                0 <= i < lines(content).len() && (#[trigger] lines(content)[i]).len() > 0
                    && upper(lines(content)[i]) == entry;
            assert(after[i] == lines(content)[i]);
        }
        if entry == address {
            assert(after[after.len() - 1] == address);
        }
    }
}

/// A list without an address holds what the list held but the address.
proof fn lemma_taken_out_holds(list: Seq<Seq<char>>, address: Seq<char>, entry: Seq<char>)
    ensures
        taken_out(list, address).contains(entry) <==> list.contains(entry) && entry != address,
    decreases list.len(),
{
    if list.len() > 0 {
        let init = list.drop_last();
        let before = taken_out(init, address);
        let all = taken_out(list, address);
        lemma_taken_out_holds(init, address, entry);
        if all.contains(entry) {
            let k = choose|k: int| 0 <= k < all.len() && all[k] == entry;
            if k < before.len() {
                assert(before[k] == entry);
                let i = choose|i: int| 0 <= i < init.len() && init[i] == entry;
                assert(list[i] == entry);
            } else {
                assert(list[list.len() - 1] == entry);
            }
        }
        if list.contains(entry) && entry != address {
            let i = choose|i: int| 0 <= i < list.len() && list[i] == entry;
            if i < init.len() {
                assert(init[i] == entry);
                let k = choose|k: int| 0 <= k < before.len() && before[k] == entry;
                assert(all[k] == entry);
            } else {
                assert(all[all.len() - 1] == entry);
            }
        }
    }
}

/// The entries of the lines that stay are the entries of all lines without
/// the address that was taken out.
proof fn lemma_entries_of_kept(lines: Seq<Seq<char>>, mac: Seq<char>)
    ensures
        entries(kept(lines, mac)) == taken_out(entries(lines), upper(mac)),
    decreases lines.len(),
{
    if lines.len() > 0 {
        let init = lines.drop_last();
        let line = lines.last();
        lemma_entries_of_kept(init, mac);
        lemma_eq_ignoring_case_upper(line, mac);
        lemma_taken_out_holds(entries(init), upper(mac), upper(line));
        if !eq_ignoring_case(line, mac) {
            assert(kept(lines, mac).drop_last() =~= kept(init, mac));
        }
        if line.len() > 0 && !entries(init).contains(upper(line)) {
            assert(entries(lines).drop_last() =~= entries(init));
        }
    }
}

/// An entry is listed after an address was taken out exactly when it was
/// listed before and is not that address.
proof fn lemma_entry_after_remove(content: Seq<char>, mac: Seq<char>, entry: Seq<char>)
    ensures
        lines(without_entry(content, mac)) == kept(lines(content), mac),
        blocked(without_entry(content, mac)) == taken_out(blocked(content), upper(mac)),
        blocked(without_entry(content, mac)).contains(entry) <==> blocked(content).contains(entry)
            && entry != upper(mac),
{
    let stored = lines(content);
    let staying = kept(stored, mac);
    lemma_lines_free_of_line_feed(content);
    assert forall|j: int| 0 <= j < staying.len() implies free_of(#[trigger] staying[j], '\n') by {
        lemma_kept_line_is_free(stored, mac, j);
    }
    lemma_lines_of_written(staying);
    lemma_entries_of_kept(stored, mac);
    lemma_entry_iff_line(staying, entry);
    lemma_entry_iff_line(stored, entry);
    if blocked(without_entry(content, mac)).contains(entry) {
        let j = choose|j: int|
            0 <= j < staying.len() && (#[trigger] staying[j]).len() > 0 && upper(staying[j])
                == entry;
        assert(staying.contains(staying[j]));
        lemma_kept_iff_line(stored, mac, staying[j]);
        lemma_eq_ignoring_case_upper(staying[j], mac);
        let i = choose|i: int| 0 <= i < stored.len() && stored[i] == staying[j];
        assert(stored[i].len() > 0 && upper(stored[i]) == entry);
    }
    if blocked(content).contains(entry) && entry != upper(mac) {
        let i = choose|i: int|
            0 <= i < stored.len() && (#[trigger] stored[i]).len() > 0 && upper(stored[i]) == entry;
        lemma_eq_ignoring_case_upper(stored[i], mac);
        assert(stored.contains(stored[i]));
        lemma_kept_iff_line(stored, mac, stored[i]);
        let j = choose|j: int| 0 <= j < staying.len() && staying[j] == stored[i];
        assert(staying[j].len() > 0 && upper(staying[j]) == entry);
    }
}

/// Taking an address out takes it off the list and nothing else, whatever the
/// stored text and in whatever case the address was stored or is given. The
/// text that is written has the lines that stay, as they were.
pub proof fn lemma_blocked_after_remove(content: Seq<char>, mac: Seq<char>)
    ensures
        lines(without_entry(content, mac)) == kept(lines(content), mac),
        blocked(without_entry(content, mac)) == taken_out(blocked(content), upper(mac)),
        !blocked(without_entry(content, mac)).contains(upper(mac)),
        forall|entry: Seq<char>|
            blocked(without_entry(content, mac)).contains(entry) <==> blocked(content).contains(
                entry,
            ) && entry != upper(mac),
{
    lemma_entry_after_remove(content, mac, upper(mac));
    assert forall|entry: Seq<char>|
        blocked(without_entry(content, mac)).contains(entry) <==> blocked(content).contains(entry)
            && entry != upper(mac) by {
        lemma_entry_after_remove(content, mac, entry);
    }
}

/// The firewall command that drops what `mac` sends, up to the address.
pub const BLOCK_HEAD: &'static str = "iptables -I FORWARD 1 -m mac --mac-source ";

/// The firewall command that drops what `mac` sends, between the address in
/// the forwarding chain and the address in the input chain.
pub const BLOCK_MIDDLE: &'static str = " -j DROP; iptables -I INPUT 1 -m mac --mac-source ";

/// The firewall command that drops what `mac` sends, after the address.
pub const BLOCK_TAIL: &'static str = " -j DROP";

/// The firewall command that lifts the drop, up to the address.
pub const UNBLOCK_HEAD: &'static str = "iptables -D FORWARD -m mac --mac-source ";

/// The firewall command that lifts the drop, between the two addresses.
pub const UNBLOCK_MIDDLE: &'static str =
    " -j DROP 2>/dev/null; iptables -D INPUT -m mac --mac-source ";

/// The firewall command that lifts the drop, after the address.
pub const UNBLOCK_TAIL: &'static str = " -j DROP 2>/dev/null";

/// The shell command that drops what `mac` sends, in the forwarding chain and
/// in the input chain.
pub open spec fn block_text(mac: Seq<char>) -> Seq<char> {
    BLOCK_HEAD@ + mac + BLOCK_MIDDLE@ + mac + BLOCK_TAIL@
}

/// The shell command that lifts the drop in both chains, and is silent where
/// there is none.
pub open spec fn unblock_text(mac: Seq<char>) -> Seq<char> {
    UNBLOCK_HEAD@ + mac + UNBLOCK_MIDDLE@ + mac + UNBLOCK_TAIL@
}

/// The shell command that drops what `mac` sends.
pub fn block_command(mac: &str) -> (command: String)
    ensures
        command@ == block_text(mac@),
{
    let mut command = String::from_str(BLOCK_HEAD);
    command.append(mac);
    command.append(BLOCK_MIDDLE);
    command.append(mac);
    command.append(BLOCK_TAIL);
    command
}

/// The shell command that lifts the drop on `mac`.
pub fn unblock_command(mac: &str) -> (command: String)
    ensures
        command@ == unblock_text(mac@),
{
    let mut command = String::from_str(UNBLOCK_HEAD);
    command.append(mac);
    command.append(UNBLOCK_MIDDLE);
    command.append(mac);
    command.append(UNBLOCK_TAIL);
    command
}

/// How far the blocking of an address has come.
#[derive(Debug, Clone, Copy, PartialEq, Eq, Structural)]
pub enum BlockStage {
    /// The command is to be submitted to the privileged channel.
    Submit,
    /// The channel took the command; its effect is to be waited for.
    Settle,
    /// The channel did not take the command; it is to be run directly.
    Elevate,
    /// The command was carried out; the address is to be stored.
    Persist,
    /// The address is blocked and stored.
    Blocked,
    /// The command could not be carried out; nothing was stored.
    Failed,
}

/// What the caller does at a stage.
#[derive(Debug, Clone, PartialEq, Eq)]
pub enum BlockAction {
    /// Write the line to the privileged channel; report whether it went
    /// through.
    Submit { line: String },
    /// Wait so many milliseconds; report success.
    Settle { millis: u64 },
    /// Run the elevation program with the arguments; report whether it ended
    /// well.
    Elevate { arguments: Vec<String> },
    /// Read the stored text and write what `BlockAttempt::stored` makes of
    /// it; report success.
    Persist,
    /// Nothing: the attempt has ended, with the address blocked or not.
    Done { blocked: bool },
}

/// The stage that follows `stage` once its action was reported as done well
/// or not. The channel comes first and the direct invocation second; the
/// address is stored only after one of them carried the command out.
pub open spec fn stage_after(stage: BlockStage, succeeded: bool) -> BlockStage {
    match stage {
        BlockStage::Submit => if succeeded {
            BlockStage::Settle
        } else {
            BlockStage::Elevate
        },
        BlockStage::Settle => BlockStage::Persist,
        BlockStage::Elevate => if succeeded {
            BlockStage::Persist
        } else {
            BlockStage::Failed
        },
        BlockStage::Persist => BlockStage::Blocked,
        BlockStage::Blocked => BlockStage::Blocked,
        BlockStage::Failed => BlockStage::Failed,
    }
}

/// Whether the action of `stage` for `mac` is `action`.
pub open spec fn is_action_at(stage: BlockStage, mac: Seq<char>, action: BlockAction) -> bool {
    match stage {
        BlockStage::Submit => action matches BlockAction::Submit { line } && line@
            == block_text(mac).push('\n'),
        BlockStage::Settle => action matches BlockAction::Settle { millis } && millis
            == SETTLE_MILLIS,
        BlockStage::Elevate => action matches BlockAction::Elevate { arguments } && texts(
            arguments@,
        ) == shell_arguments(block_text(mac)),
        BlockStage::Persist => action is Persist,
        BlockStage::Blocked => action matches BlockAction::Done { blocked } && blocked,
        BlockStage::Failed => action matches BlockAction::Done { blocked } && !blocked,
    }
}

/// The blocking of one address, step by step.
#[derive(Debug)]
pub struct BlockAttempt {
    mac: String,
    stage: BlockStage,
}

impl BlockAttempt {
    /// The address that is being blocked.
    pub closed spec fn mac(&self) -> Seq<char> {
        self.mac@
    }

    /// How far the attempt has come.
    pub closed spec fn stage(&self) -> BlockStage {
        self.stage
    }

    /// The action to take now.
    pub fn action(&self) -> (action: BlockAction)
        ensures
            is_action_at(self.stage(), self.mac(), action),
    {
        match self.stage {
            BlockStage::Submit => BlockAction::Submit {
                line: submit_line(block_command(self.mac.as_str()).as_str()),
            },
            BlockStage::Settle => BlockAction::Settle { millis: SETTLE_MILLIS },
            BlockStage::Elevate => BlockAction::Elevate {
                arguments: direct_command(block_command(self.mac.as_str()).as_str()),
            },
            BlockStage::Persist => BlockAction::Persist,
            BlockStage::Blocked => BlockAction::Done { blocked: true },
            BlockStage::Failed => BlockAction::Done { blocked: false },
        }
    }

    /// The stored text with the address of the attempt blocked, to be written
    /// for the action `Persist`: it lists what the text listed, and the
    /// address.
    pub fn stored(&self, content: &str) -> (text: String)
        ensures
            text@ == with_entry(content@, self.mac()),
            is_one_line(self.mac()) ==> blocked(text@) == if blocked(content@).contains(
                upper(self.mac()),
            ) {
                blocked(content@)
            } else {
                blocked(content@).push(upper(self.mac()))
            },
    {
        add_to_blocklist(content, self.mac.as_str())
    }

    /// Takes the report on the action of the current stage and moves on.
    pub fn report(&mut self, succeeded: bool)
        ensures
            final(self).mac() == old(self).mac(),
            final(self).stage() == stage_after(old(self).stage(), succeeded),
    {
        self.stage = match self.stage {
            BlockStage::Submit => if succeeded {
                BlockStage::Settle
            } else {
                BlockStage::Elevate
            },
            BlockStage::Settle => BlockStage::Persist,
            BlockStage::Elevate => if succeeded {
                BlockStage::Persist
            } else {
                BlockStage::Failed
            },
            BlockStage::Persist => BlockStage::Blocked,
            BlockStage::Blocked => BlockStage::Blocked,
            BlockStage::Failed => BlockStage::Failed,
        };
    }
}

/// Begins to block `mac`: the first action submits the firewall command to
/// the privileged channel.
pub fn block_device(mac: &str) -> (attempt: BlockAttempt)
    ensures
        attempt.mac() == mac@,
        attempt.stage() == BlockStage::Submit,
{
    BlockAttempt { mac: String::from_str(mac), stage: BlockStage::Submit }
}

/// An attempt ends with its third report, and the address is blocked exactly
/// when the channel or else the direct invocation carried the command out.
/// The address is stored on the way there, and on no other.
pub proof fn lemma_block_ends(submitted: bool, second: bool, third: bool)
    ensures
        stage_after(stage_after(stage_after(BlockStage::Submit, submitted), second), third) == if submitted
            || second {
            BlockStage::Blocked
        } else {
            BlockStage::Failed
        },
        submitted || second <==> stage_after(BlockStage::Submit, submitted) == BlockStage::Persist
            || stage_after(stage_after(BlockStage::Submit, submitted), second)
            == BlockStage::Persist,
{
}

/// How far the unblocking of an address has come.
#[derive(Debug, Clone, Copy, PartialEq, Eq, Structural)]
pub enum UnblockStage {
    /// The command is to be submitted to the privileged channel.
    Submit,
    /// The channel did not take the command; it is to be run directly.
    Elevate,
    /// The command was tried; the address is to be taken out of the store.
    Remove,
    /// The address is off the list.
    Done,
}

/// What the caller does at a stage of an unblocking.
#[derive(Debug, Clone, PartialEq, Eq)]
pub enum UnblockAction {
    /// Write the line to the privileged channel; report whether it went
    /// through.
    Submit { line: String },
    /// Run the elevation program with the arguments; report how it ended.
    Elevate { arguments: Vec<String> },
    /// Read the stored text and write what `UnblockAttempt::stored` makes of
    /// it; report success.
    Remove,
    /// Nothing: the attempt has ended.
    Done,
}

/// The stage that follows `stage` of an unblocking once its action was
/// reported. The channel comes first and the direct invocation second. A
/// command that could not be carried out holds nothing up: the address is
/// taken out of the store all the same, and the attempt ends without failure.
pub open spec fn unblock_stage_after(stage: UnblockStage, succeeded: bool) -> UnblockStage {
    match stage {
        UnblockStage::Submit => if succeeded {
            UnblockStage::Remove
        } else {
            UnblockStage::Elevate
        },
        UnblockStage::Elevate => UnblockStage::Remove,
        UnblockStage::Remove => UnblockStage::Done,
        UnblockStage::Done => UnblockStage::Done,
    }
}

/// Whether the action of `stage` of the unblocking of `mac` is `action`.
pub open spec fn is_unblock_action_at(
    stage: UnblockStage,
    mac: Seq<char>,
    action: UnblockAction,
) -> bool {
    match stage {
        UnblockStage::Submit => action matches UnblockAction::Submit { line } && line@
            == unblock_text(mac).push('\n'),
        UnblockStage::Elevate => action matches UnblockAction::Elevate { arguments } && texts(
            arguments@,
        ) == shell_arguments(unblock_text(mac)),
        UnblockStage::Remove => action is Remove,
        UnblockStage::Done => action is Done,
    }
}

/// The unblocking of one address, step by step.
#[derive(Debug)]
pub struct UnblockAttempt {
    mac: String,
    stage: UnblockStage,
}

impl UnblockAttempt {
    /// The address that is being unblocked.
    pub closed spec fn mac(&self) -> Seq<char> {
        self.mac@
    }

    /// How far the attempt has come.
    pub closed spec fn stage(&self) -> UnblockStage {
        self.stage
    }

    /// The action to take now.
    pub fn action(&self) -> (action: UnblockAction)
        ensures
            is_unblock_action_at(self.stage(), self.mac(), action),
    {
        match self.stage {
            UnblockStage::Submit => UnblockAction::Submit {
                line: submit_line(unblock_command(self.mac.as_str()).as_str()),
            },
            UnblockStage::Elevate => UnblockAction::Elevate {
                arguments: direct_command(unblock_command(self.mac.as_str()).as_str()),
            },
            UnblockStage::Remove => UnblockAction::Remove,
            UnblockStage::Done => UnblockAction::Done,
        }
    }

    /// The stored text with the address of the attempt taken out, to be
    /// written for the action `Remove`: it lists what the text listed but
    /// the address.
    pub fn stored(&self, content: &str) -> (text: String)
        ensures
            text@ == without_entry(content@, self.mac()),
            blocked(text@) == taken_out(blocked(content@), upper(self.mac())),
            !blocked(text@).contains(upper(self.mac())),
    {
        remove_from_blocklist(content, self.mac.as_str())
    }

    /// Takes the report on the action of the current stage and moves on.
    pub fn report(&mut self, succeeded: bool)
        ensures
            final(self).mac() == old(self).mac(),
            final(self).stage() == unblock_stage_after(old(self).stage(), succeeded),
    {
        self.stage = match self.stage {
            UnblockStage::Submit => if succeeded {
                UnblockStage::Remove
            } else {
                UnblockStage::Elevate
            },
            UnblockStage::Elevate => UnblockStage::Remove,
            UnblockStage::Remove => UnblockStage::Done,
            UnblockStage::Done => UnblockStage::Done,
        };
    }
}

/// Begins to unblock `mac`: the first action submits the command that lifts
/// the drop to the privileged channel.
pub fn unblock_device(mac: &str) -> (attempt: UnblockAttempt)
    ensures
        attempt.mac() == mac@,
        attempt.stage() == UnblockStage::Submit,
{
    UnblockAttempt { mac: String::from_str(mac), stage: UnblockStage::Submit }
}

/// An unblocking ends with its third report at the latest and never in
/// failure, and it takes the address out of the store on the way, whether or
/// not the command could be carried out.
pub proof fn lemma_unblock_ends(submitted: bool, second: bool, third: bool)
    ensures
        unblock_stage_after(
            unblock_stage_after(unblock_stage_after(UnblockStage::Submit, submitted), second),
            third,
        ) == UnblockStage::Done,
        unblock_stage_after(UnblockStage::Submit, submitted) == UnblockStage::Remove
            || unblock_stage_after(unblock_stage_after(UnblockStage::Submit, submitted), second)
            == UnblockStage::Remove,
{
}

} // verus!
