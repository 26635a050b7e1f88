//! Version selection.
//!
//! A repository offers up to three signals: its latest tag with the version
//! that the tag stands for, its current branch, and its latest commit. From
//! them a menu of version constraints is built; the user picks one entry by
//! its number. Only `q` and `quit` cancel: every other answer that is no
//! number of the menu selects the last entry, the latest commit.

use vstd::prelude::*;
use crate::prompt::{cancels, is_cancel, normalize_answer, normalized};
use crate::text::{
    chars_of, decimal, decimal_text, lemma_decimal_is_number, number_within, opt_str, opt_text,
    parse_within,
};

verus! {

/// How far later versions may depart from the one recorded.
#[derive(Debug, PartialEq, Eq)]
pub enum Constraint {
    /// Patch-level changes to this version are accepted.
    Tilde(String),
    /// Minor-level changes to this version are accepted.
    Caret(String),
    /// Only this version is accepted.
    Exact(String),
    /// The head of this branch.
    Branch(String),
    /// This commit.
    Commit(String),
}

/// The mathematical content of a [`Constraint`].
pub enum ConstraintView {
    Tilde(Seq<char>),
    Caret(Seq<char>),
    Exact(Seq<char>),
    Branch(Seq<char>),
    Commit(Seq<char>),
}

impl View for Constraint {
    type V = ConstraintView;

    open spec fn view(&self) -> ConstraintView {
        match self {
            Constraint::Tilde(v) => ConstraintView::Tilde(v@),
            Constraint::Caret(v) => ConstraintView::Caret(v@),
            Constraint::Exact(v) => ConstraintView::Exact(v@),
            Constraint::Branch(n) => ConstraintView::Branch(n@),
            Constraint::Commit(h) => ConstraintView::Commit(h@),
        }
    }
}

impl ConstraintView {
    /// The name under which the menu lists this kind of constraint.
    pub open spec fn label(self) -> Seq<char> {
        match self {
            ConstraintView::Tilde(_) => "Tilde (Patch)"@,
            ConstraintView::Caret(_) => "Caret (Minor)"@,
            ConstraintView::Exact(_) => "Exact (Fixed)"@,
            ConstraintView::Branch(_) => "Branch (HEAD)"@,
            ConstraintView::Commit(_) => "Latest commit"@,
        }
    }

    /// The constraint as it is written down: the version behind `~`, `^` or
    /// `=`, or the bare branch name or commit.
    pub open spec fn text(self) -> Seq<char> {
        match self {
            ConstraintView::Tilde(v) => seq!['~'] + v,
            ConstraintView::Caret(v) => seq!['^'] + v,
            ConstraintView::Exact(v) => seq!['='] + v,
            ConstraintView::Branch(n) => n,
            ConstraintView::Commit(h) => h,
        }
    }
}

impl Constraint {
    /// The name under which the menu lists this kind of constraint.
    pub fn label(&self) -> (out: &'static str)
        ensures
            out@ == self@.label(),
    {
        match self {
            Constraint::Tilde(_) => "Tilde (Patch)",
            Constraint::Caret(_) => "Caret (Minor)",
            Constraint::Exact(_) => "Exact (Fixed)",
            Constraint::Branch(_) => "Branch (HEAD)",
            Constraint::Commit(_) => "Latest commit",
        }
    }

    /// The constraint as it is written down.
    pub fn text(&self) -> (out: String)
        ensures
            out@ == self@.text(),
    {
        proof {
            reveal_strlit("~");
            reveal_strlit("^");
            reveal_strlit("=");
        }
        match self {
            Constraint::Tilde(v) => {
                let mut out = "~".to_owned();
                out.append(v.as_str());
                out
            },
            Constraint::Caret(v) => {
                let mut out = "^".to_owned();
                out.append(v.as_str());
                out
            },
            Constraint::Exact(v) => {
                let mut out = "=".to_owned();
                out.append(v.as_str());
                out
            },
            Constraint::Branch(n) => n.clone(),
            Constraint::Commit(h) => h.clone(),
        }
    }
}

/// One line of the menu: a constraint and the reference that is checked out
/// when the constraint is chosen.
#[derive(Debug, PartialEq, Eq)]
pub struct MenuEntry {
    pub constraint: Constraint,
    pub reference: String,
}

/// The mathematical content of a [`MenuEntry`].
pub struct MenuEntryView {
    pub constraint: ConstraintView,
    pub reference: Seq<char>,
}

impl View for MenuEntry {
    type V = MenuEntryView;

    open spec fn view(&self) -> MenuEntryView {
        MenuEntryView { constraint: self.constraint@, reference: self.reference@ }
    }
}

/// The views of a list of entries, in order.
pub open spec fn entry_views(list: Seq<MenuEntry>) -> Seq<MenuEntryView> {
    list.map_values(|e: MenuEntry| e@)
}

/// The three entries that a tag gives rise to, all checking out the tag.
pub open spec fn tag_entries(tag: Seq<char>, version: Seq<char>) -> Seq<MenuEntryView> {
    seq![
        MenuEntryView { constraint: ConstraintView::Tilde(version), reference: tag },
        MenuEntryView { constraint: ConstraintView::Caret(version), reference: tag },
        MenuEntryView { constraint: ConstraintView::Exact(version), reference: tag },
    ]
}

/// The entry for a branch.
pub open spec fn branch_entry(name: Seq<char>) -> MenuEntryView {
    MenuEntryView { constraint: ConstraintView::Branch(name), reference: name }
}

/// The entry for the latest commit.
pub open spec fn commit_entry(commit: Seq<char>) -> MenuEntryView {
    MenuEntryView { constraint: ConstraintView::Commit(commit), reference: commit }
}

/// The menu for a repository: the tag's three entries if it has a tag, then
/// the branch if it has one, then the latest commit.
pub open spec fn menu_for(
    tag_version: Option<(Seq<char>, Seq<char>)>,
    branch: Option<Seq<char>>,
    commit: Seq<char>,
) -> Seq<MenuEntryView> {
    let tagged = match tag_version {
        Some((tag, version)) => tag_entries(tag, version),
        None => Seq::empty(),
    };
    let branched = match branch {
        Some(name) => seq![branch_entry(name)],
        None => Seq::empty(),
    };
    tagged + branched + seq![commit_entry(commit)]
}

/// The position of the entry that a normalized answer selects in a menu of
/// `len` entries: the one whose number was typed, else the last.
pub open spec fn chosen_index(len: nat, answer: Seq<char>) -> int {
    match number_within(answer, len) {
        Some(k) => k - 1,
        None => len - 1,
    }
}

/// What a normalized answer selects: nothing where it cancels, else the
/// reference and the constraint text of the chosen entry.
pub open spec fn selection(menu: Seq<MenuEntryView>, answer: Seq<char>) -> Option<
    (Seq<char>, Seq<char>),
> {
    if is_cancel(answer) {
        None
    } else {
        let entry = menu[chosen_index(menu.len(), answer)];
        Some((entry.reference, entry.constraint.text()))
    }
}

/// What a line of input selects (`None`: no line could be read).
pub open spec fn selection_from_input(menu: Seq<MenuEntryView>, input: Option<Seq<char>>) -> Option<
    (Seq<char>, Seq<char>),
> {
    match input {
        Some(line) => selection(menu, normalized(line)),
        None => None,
    }
}

/// The line of the prompt for the entry at position `i`.
pub open spec fn entry_line(i: nat, entry: MenuEntryView) -> Seq<char> {
    "\n["@ + decimal(i + 1) + "] "@ + entry.constraint.label() + ": "@ + entry.constraint.text()
}

/// The lines of the prompt for all entries, in order.
pub open spec fn entry_lines(menu: Seq<MenuEntryView>) -> Seq<char>
    decreases menu.len(),
{
    if menu.len() == 0 {
        Seq::empty()
    } else {
        entry_lines(menu.drop_last()) + entry_line((menu.len() - 1) as nat, menu.last())
    }
}

/// The text that asks the user to choose from `menu`.
pub open spec fn prompt_text(menu: Seq<MenuEntryView>) -> Seq<char> {
    "\nVersions:"@ + entry_lines(menu)
        + " (Default)\nType `q` to cancel.\n\nPlease choose one of the following versions: [1-"@
        + decimal(menu.len()) + "]"@
}

/// The view of an optional pair of strings.
pub open spec fn opt_pair(pair: Option<(String, String)>) -> Option<(Seq<char>, Seq<char>)> {
    match pair {
        Some((a, b)) => Some((a@, b@)),
        None => None,
    }
}

/// A menu of version constraints. It is never empty, and its last entry is
/// the latest commit.
#[derive(Debug, PartialEq, Eq)]
pub struct Menu {
    entries: Vec<MenuEntry>,
}

impl View for Menu {
    type V = Seq<MenuEntryView>;

    closed spec fn view(&self) -> Seq<MenuEntryView> {
        entry_views(self.entries@)
    }
}

impl Menu {
    #[verifier::type_invariant]
    spec fn inv(&self) -> bool {
        self.entries@.len() > 0 && self.entries@.last()@.constraint is Commit
    }

    /// Builds the menu for a repository with these signals.
    pub fn build(
        tag_version: Option<(String, String)>,
        current_branch: Option<String>,
        latest_commit: String,
    ) -> (menu: Menu)
        ensures
            menu@ == menu_for(opt_pair(tag_version), opt_text(current_branch), latest_commit@),
    {
        let mut entries: Vec<MenuEntry> = Vec::new();
        if let Some((tag, version)) = tag_version {
            let tilde = MenuEntry {
                constraint: Constraint::Tilde(version.clone()),
                reference: tag.clone(),
            };
            let caret = MenuEntry {
                constraint: Constraint::Caret(version.clone()),
                reference: tag.clone(),
            };
            let exact = MenuEntry { constraint: Constraint::Exact(version), reference: tag };
            entries.push(tilde);
            entries.push(caret);
            entries.push(exact);
        }
        if let Some(name) = current_branch {
            entries.push(MenuEntry { constraint: Constraint::Branch(name.clone()), reference: name });
        }
        entries.push(
            MenuEntry {
                constraint: Constraint::Commit(latest_commit.clone()),
                reference: latest_commit,
            },
        );
        Menu { entries }
    }

    /// The number of entries; at least one.
    pub fn len(&self) -> (n: usize)
        ensures
            n == self@.len(),
            n >= 1,
    {
        proof {
            use_type_invariant(self);
        }
        self.entries.len()
    }

    /// The entries, in the order in which they are numbered. The last one
    /// is the latest commit.
    pub fn entries(&self) -> (list: &Vec<MenuEntry>)
        ensures
            entry_views(list@) == self@,
            self@.len() >= 1,
            self@.last().constraint is Commit,
    {
        proof {
            use_type_invariant(self);
        }
        &self.entries
    }

    /// The text that asks the user to choose: the entries, numbered from 1,
    /// the last one marked as the default.
    pub fn prompt(&self) -> (msg: String)
        ensures
            msg@ == prompt_text(self@),
    {
        let mut msg = "\nVersions:".to_owned();
        let n = self.entries.len();
        let mut i: usize = 0;
        while i < n
            invariant
                n == self.entries@.len(),
                i <= n,
                msg@ == "\nVersions:"@ + entry_lines(entry_views(self.entries@).take(i as int)),
            decreases n - i,
        {
            let entry = &self.entries[i];
            let ghost shown = entry_views(self.entries@).take(i + 1);
            assert(shown.drop_last() == entry_views(self.entries@).take(i as int));
            msg.append("\n[");
            msg.append(decimal_text(i + 1).as_str());
            msg.append("] ");
            msg.append(entry.constraint.label());
            msg.append(": ");
            msg.append(entry.constraint.text().as_str());
            i += 1;
        }
        assert(entry_views(self.entries@).take(i as int) == entry_views(self.entries@));
        msg.append(
            " (Default)\nType `q` to cancel.\n\nPlease choose one of the following versions: [1-",
        );
        msg.append(decimal_text(n).as_str());
        msg.append("]");
        msg
    }

    /// Selects by a normalized answer.
    ///
    /// `q` and `quit` select nothing. A number of the menu selects its
    /// entry. Any other answer selects the last entry.
    pub fn select(&self, answer: &str) -> (chosen: Option<(String, String)>)
        ensures
            opt_pair(chosen) == selection(self@, answer@),
    {
        proof {
            use_type_invariant(self);
        }
        if cancels(answer) {
            return None;
        }
        let typed = chars_of(answer);
        let n = self.entries.len();
        let index = match parse_within(typed.as_slice(), n) {
            Some(k) => k - 1,
            None => n - 1,
        };
        let entry = &self.entries[index];
        Some((entry.reference.clone(), entry.constraint.text()))
    }

    /// Selects by the line that the user typed (`None`: no line could be
    /// read, and nothing is selected).
    pub fn answer(&self, input: Option<&str>) -> (chosen: Option<(String, String)>)
        ensures
            opt_pair(chosen) == selection_from_input(self@, opt_str(input)),
    {
        match input {
            Some(line) => {
                let answer = normalize_answer(line);
                self.select(answer.as_str())
            },
            None => None,
        }
    }
}

/// How far the signals of a repository settle its version.
#[derive(Debug, PartialEq, Eq)]
pub enum Resolution {
    /// The repository has no commit: nothing can be selected.
    Unusable,
    /// Nothing to choose from: the reference and the constraint text.
    Settled(String, String),
    /// The user has to choose from this menu.
    Ask(Menu),
}

/// Decides from the signals of a repository whether its version is
/// settled or has to be asked for.
///
/// Without a commit nothing can be selected. With a commit and neither tag
/// nor branch, the commit is the reference and the constraint, and nobody is
/// asked. Otherwise the user chooses from the menu.
pub fn version_prompt(
    latest_commit: Option<String>,
    tag_version: Option<(String, String)>,
    current_branch: Option<String>,
) -> (step: Resolution)
    ensures
        latest_commit is None ==> step is Unusable,
        latest_commit is Some && tag_version is None && current_branch is None ==> (
        step matches Resolution::Settled(reference, constraint) && reference@
            == latest_commit->0@ && constraint@ == latest_commit->0@),
        latest_commit is Some && (tag_version is Some || current_branch is Some) ==> (
        step matches Resolution::Ask(menu) && menu@ == menu_for(
            opt_pair(tag_version),
            opt_text(current_branch),
            latest_commit->0@,
        )),
{
    match latest_commit {
        None => Resolution::Unusable,
        Some(commit) => {
            if tag_version.is_none() && current_branch.is_none() {
                Resolution::Settled(commit.clone(), commit)
            } else {
                Resolution::Ask(Menu::build(tag_version, current_branch, commit))
            }
        },
    }
}

/// With a tag and a branch the menu has five entries, in this order: tilde,
/// caret, exact, branch, latest commit.
pub proof fn lemma_full_menu(
    tag: Seq<char>,
    version: Seq<char>,
    branch: Seq<char>,
    commit: Seq<char>,
)
    ensures
        menu_for(Some((tag, version)), Some(branch), commit) == seq![
            MenuEntryView { constraint: ConstraintView::Tilde(version), reference: tag },
            MenuEntryView { constraint: ConstraintView::Caret(version), reference: tag },
            MenuEntryView { constraint: ConstraintView::Exact(version), reference: tag },
            MenuEntryView { constraint: ConstraintView::Branch(branch), reference: branch },
            MenuEntryView { constraint: ConstraintView::Commit(commit), reference: commit },
        ],
{
    assert(menu_for(Some((tag, version)), Some(branch), commit) =~= seq![
        MenuEntryView { constraint: ConstraintView::Tilde(version), reference: tag },
        MenuEntryView { constraint: ConstraintView::Caret(version), reference: tag },
        MenuEntryView { constraint: ConstraintView::Exact(version), reference: tag },
        MenuEntryView { constraint: ConstraintView::Branch(branch), reference: branch },
        MenuEntryView { constraint: ConstraintView::Commit(commit), reference: commit },
    ]);
}

/// Every menu ends with the latest commit, and has one entry for it, one for
/// a branch and three for a tag.
pub proof fn lemma_menu_shape(
    tag_version: Option<(Seq<char>, Seq<char>)>,
    branch: Option<Seq<char>>,
    commit: Seq<char>,
)
    ensures
        menu_for(tag_version, branch, commit).len() == 1 + (if tag_version is Some {
            3nat
        } else {
            0nat
        }) + (if branch is Some {
            1nat
        } else {
            0nat
        }),
        menu_for(tag_version, branch, commit).last() == commit_entry(commit),
{
}

/// Any line of input that neither cancels nor is a number of the menu
/// selects the latest commit.
pub proof fn lemma_default_is_latest_commit(
    tag_version: Option<(Seq<char>, Seq<char>)>,
    branch: Option<Seq<char>>,
    commit: Seq<char>,
    line: Seq<char>,
)
    requires
        !is_cancel(normalized(line)),
        number_within(normalized(line), menu_for(tag_version, branch, commit).len()) is None,
    ensures
        selection_from_input(menu_for(tag_version, branch, commit), Some(line)) == Some(
            (commit, commit),
        ),
{
}

/// A line of input that is `q` or `quit` once normalized selects nothing,
/// whatever the menu.
pub proof fn lemma_cancel_selects_nothing(menu: Seq<MenuEntryView>, line: Seq<char>)
    requires
        is_cancel(normalized(line)),
    ensures
        selection_from_input(menu, Some(line)) is None,
{
}

/// Typing the number under which the prompt lists an entry selects that
/// entry.
pub proof fn lemma_number_selects_entry(menu: Seq<MenuEntryView>, k: nat)
    requires
        1 <= k <= menu.len(),
    ensures
        selection(menu, decimal(k)) == Some((menu[k - 1].reference, menu[k - 1].constraint.text())),
{
    lemma_decimal_is_number(k);
    reveal_strlit("q");
    reveal_strlit("quit");
}

} // verus!
