//! What a remote offers: the branches and tags that `git ls-remote --symref`
//! lists, and the branch that its HEAD names.

use crate::errors::Error;
use crate::gitio::GitOutput;
use crate::text;
use vstd::prelude::*;

verus! {

#[derive(Debug)]
pub struct RefEntry {
    pub full_name: String,
    pub short_name: String,
    pub oid: String,
}

pub struct RefEntryView {
    pub full_name: Seq<char>,
    pub short_name: Seq<char>,
    pub oid: Seq<char>,
}

impl View for RefEntry {
    type V = RefEntryView;

    open spec fn view(&self) -> RefEntryView {
        RefEntryView {
            full_name: self.full_name@,
            short_name: self.short_name@,
            oid: self.oid@,
        }
    }
}

impl Clone for RefEntry {
    fn clone(&self) -> (r: RefEntry)
        ensures
            r@ == self@,
    {
        RefEntry {
            full_name: self.full_name.clone(),
            short_name: self.short_name.clone(),
            oid: self.oid.clone(),
        }
    }
}

/// The entries behind a sequence of entries.
pub open spec fn entries(v: Seq<RefEntry>) -> Seq<RefEntryView> {
    v.map_values(|e: RefEntry| e@)
}

/// A copy of the given entries.
pub fn clone_entries(v: &Vec<RefEntry>) -> (r: Vec<RefEntry>)
    ensures
        entries(r@) == entries(v@),
{
    let mut out: Vec<RefEntry> = Vec::new();
    for i in 0..v.len()
        invariant
            entries(out@) == entries(v@).take(i as int),
    {
        let ghost before = out@;
        out.push(v[i].clone());
        assert(entries(out@) =~= entries(before).push(v@[i as int]@));
        assert(entries(out@) =~= entries(v@).take(i + 1));
    }
    assert(entries(v@).take(v@.len() as int) =~= entries(v@));
    out
}

#[derive(Debug)]
pub struct RemoteRefs {
    pub default_branch: Option<String>,
    pub branches: Vec<RefEntry>,
    pub tags: Vec<RefEntry>,
}

pub struct RemoteRefsView {
    pub default_branch: Option<Seq<char>>,
    pub branches: Seq<RefEntryView>,
    pub tags: Seq<RefEntryView>,
}

/// The text of an optional string.
pub open spec fn opt_text(s: Option<String>) -> Option<Seq<char>> {
    match s {
        Some(t) => Some(t@),
        None => None,
    }
}

pub fn clone_opt(s: &Option<String>) -> (r: Option<String>)
    ensures
        opt_text(r) == opt_text(*s),
{
    match s {
        Some(t) => Some(t.clone()),
        None => None,
    }
}

impl View for RemoteRefs {
    type V = RemoteRefsView;

    open spec fn view(&self) -> RemoteRefsView {
        RemoteRefsView {
            default_branch: opt_text(self.default_branch),
            branches: entries(self.branches@),
            tags: entries(self.tags@),
        }
    }
}

impl Clone for RemoteRefs {
    fn clone(&self) -> (r: RemoteRefs)
        ensures
            r@ == self@,
    {
        RemoteRefs {
            default_branch: clone_opt(&self.default_branch),
            branches: clone_entries(&self.branches),
            tags: clone_entries(&self.tags),
        }
    }
}

// ---------------------------------------------------------------------- names

/// A full name without its namespace, which is taken off once only.
pub open spec fn short_of(full: Seq<char>) -> Seq<char> {
    if text::begins_with(full, "refs/heads/"@) {
        full.skip("refs/heads/"@.len() as int)
    } else if text::begins_with(full, "refs/tags/"@) {
        full.skip("refs/tags/"@.len() as int)
    } else {
        full
    }
}

pub fn short_name(full: &[char]) -> (r: String)
    ensures
        r@ == short_of(full@),
{
    match text::strip_prefix(full, "refs/heads/") {
        Some(s) => text::string_of(s),
        None => match text::strip_prefix(full, "refs/tags/") {
            Some(s) => text::string_of(s),
            None => text::string_of(full),
        },
    }
}

/// The entry of a reference with the given full name and object id.
pub open spec fn entry_of(name: Seq<char>, oid: Seq<char>) -> RefEntryView {
    RefEntryView { full_name: name, short_name: short_of(name), oid: text::trimmed(oid) }
}

// -------------------------------------------------------------------- parsing

/// What one line of the listing says.
pub enum Line {
    /// HEAD names this branch.
    Default(Seq<char>),
    Branch(RefEntryView),
    Tag(RefEntryView),
    /// Nothing that is cloned: another symbolic reference, HEAD itself, the
    /// commit behind an annotated tag, a reference outside branches and tags,
    /// or no reference at all.
    Ignored,
}

/// A line `ref: <target>`, tab, `<name>` tells where a symbolic reference
/// points; only that of HEAD counts, and only when it points to a branch.
pub open spec fn symref_line(rest: Seq<char>) -> Line {
    match text::split_first(rest, '\t') {
        Some((target, name)) => if text::trimmed(name) == "HEAD"@ && text::begins_with(
            text::trimmed(target),
            "refs/heads/"@,
        ) {
            Line::Default(text::trimmed(target).skip("refs/heads/"@.len() as int))
        } else {
            Line::Ignored
        },
        None => Line::Ignored,
    }
}

/// Any other line is an object id, a tab and a reference's name.
pub open spec fn ref_line(line: Seq<char>) -> Line {
    match text::split_first(line, '\t') {
        Some((oid, rest)) => {
            let name = text::trimmed(rest);
            if text::finishes_with(name, "^{}"@) || name == "HEAD"@ {
                Line::Ignored
            } else if text::begins_with(name, "refs/heads/"@) {
                Line::Branch(entry_of(name, oid))
            } else if text::begins_with(name, "refs/tags/"@) {
                Line::Tag(entry_of(name, oid))
            } else {
                Line::Ignored
            }
        },
        None => Line::Ignored,
    }
}

pub open spec fn line_says(line: Seq<char>) -> Line {
    if text::begins_with(line, "ref: "@) {
        symref_line(line.skip("ref: "@.len() as int))
    } else {
        ref_line(line)
    }
}

/// The branches that the lines list, in their order.
pub open spec fn branches_in(lines: Seq<Seq<char>>) -> Seq<RefEntryView>
    decreases lines.len(),
{
    if lines.len() == 0 {
        seq![]
    } else {
        match line_says(lines.last()) {
            Line::Branch(e) => branches_in(lines.drop_last()).push(e),
            _ => branches_in(lines.drop_last()),
        }
    }
}

/// The tags that the lines list, in their order.
pub open spec fn tags_in(lines: Seq<Seq<char>>) -> Seq<RefEntryView>
    decreases lines.len(),
{
    if lines.len() == 0 {
        seq![]
    } else {
        match line_says(lines.last()) {
            Line::Tag(e) => tags_in(lines.drop_last()).push(e),
            _ => tags_in(lines.drop_last()),
        }
    }
}

/// The default branch: what the last line about HEAD names.
pub open spec fn default_in(lines: Seq<Seq<char>>) -> Option<Seq<char>>
    decreases lines.len(),
{
    if lines.len() == 0 {
        None
    } else {
        match line_says(lines.last()) {
            Line::Default(b) => Some(b),
            _ => default_in(lines.drop_last()),
        }
    }
}

/// What a listing offers.
pub open spec fn listed(output: Seq<char>) -> RemoteRefsView {
    let lines = text::lines_of(output);
    RemoteRefsView {
        default_branch: default_in(lines),
        branches: branches_in(lines),
        tags: tags_in(lines),
    }
}

/// The branch that a line about a symbolic reference makes the default one.
fn parse_symref(rest: &[char]) -> (r: Option<String>)
    ensures
        match r {
            Some(b) => symref_line(rest@) == Line::Default(b@),
            None => symref_line(rest@) == Line::Ignored,
        },
{
    let head = text::chars_of("HEAD");
    match text::split_once(rest, '\t') {
        Some((target, name)) => {
            if text::same_chars(text::trim(name), head.as_slice()) {
                match text::strip_prefix(text::trim(target), "refs/heads/") {
                    Some(b) => Some(text::string_of(b)),
                    None => None,
                }
            } else {
                None
            }
        },
        None => None,
    }
}

/// Parses the output of `git ls-remote --symref`.
pub fn parse_ls_remote(output: &str) -> (r: RemoteRefs)
    ensures
        r@ == listed(output@),
{
    let all = text::chars_of(output);
    let lines = text::lines(all.as_slice());
    let head = text::chars_of("HEAD");
    let ghost views = text::views(lines@);
    let mut default_branch: Option<String> = None;
    let mut branches: Vec<RefEntry> = Vec::new();
    let mut tags: Vec<RefEntry> = Vec::new();
    for i in 0..lines.len()
        invariant
            views == text::views(lines@),
            head@ == "HEAD"@,
            opt_text(default_branch) == default_in(views.take(i as int)),
            entries(branches@) == branches_in(views.take(i as int)),
            entries(tags@) == tags_in(views.take(i as int)),
    {
        let line: &[char] = lines[i];
        let ghost bs = branches@;
        let ghost ts = tags@;
        assert(views.take(i + 1).drop_last() =~= views.take(i as int));
        assert(views.take(i + 1).last() == line@);
        match text::strip_prefix(line, "ref: ") {
            Some(rest) => {
                match parse_symref(rest) {
                    Some(b) => {
                        default_branch = Some(b);
                    },
                    None => {},
                }
            },
            None => {
                match text::split_once(line, '\t') {
                    Some((oid, rest)) => {
                        let name = text::trim(rest);
                        if text::ends_with(name, "^{}") || text::same_chars(name, head.as_slice()) {
                        } else if text::starts_with(name, "refs/heads/") {
                            branches.push(
                                RefEntry {
                                    full_name: text::string_of(name),
                                    short_name: short_name(name),
                                    oid: text::string_of(text::trim(oid)),
                                },
                            );
                            assert(entries(branches@) =~= entries(bs).push(entry_of(name@, oid@)));
                        } else if text::starts_with(name, "refs/tags/") {
                            tags.push(
                                RefEntry {
                                    full_name: text::string_of(name),
                                    short_name: short_name(name),
                                    oid: text::string_of(text::trim(oid)),
                                },
                            );
                            assert(entries(tags@) =~= entries(ts).push(entry_of(name@, oid@)));
                        }
                    },
                    None => {},
                }
            },
        }
    }
    assert(views.take(lines@.len() as int) =~= views);
    RemoteRefs { default_branch, branches, tags }
}

/// The arguments with which git lists what a remote offers.
pub open spec fn ls_remote_command(url: Seq<char>) -> Seq<Seq<char>> {
    seq!["ls-remote"@, "--symref"@, url]
}

pub fn ls_remote_args(url: &str) -> (r: Vec<String>)
    ensures
        text::texts(r@) == ls_remote_command(url@),
{
    let r = vec![
        String::from_str("ls-remote"),
        String::from_str("--symref"),
        String::from_str(url),
    ];
    assert(text::texts(r@) =~= ls_remote_command(url@));
    r
}

/// What the remote offers, from the listing that git has made of it. A listing
/// that failed fails as it did.
pub fn ls_remote(listing: Result<GitOutput, Error>) -> (r: Result<RemoteRefs, Error>)
    ensures
        r is Ok <==> listing is Ok,
        r matches Ok(refs) ==> refs@ == listed(listing->Ok_0.stdout@),
        r matches Err(e) ==> e@ == listing->Err_0@,
{
    match listing {
        Ok(out) => Ok(parse_ls_remote(out.stdout.as_str())),
        Err(e) => Err(e),
    }
}

// ----------------------------------------------------------------------- laws

/// Every listed branch is a reference below `refs/heads/`, and its short name
/// is its full name without that prefix, taken off exactly once.
pub proof fn law_branches_are_heads(lines: Seq<Seq<char>>, i: int)
    requires
        0 <= i < branches_in(lines).len(),
    ensures
        branches_in(lines)[i].full_name == "refs/heads/"@ + branches_in(lines)[i].short_name,
    decreases lines.len(),
{
    let before = branches_in(lines.drop_last());
    match line_says(lines.last()) {
        Line::Branch(e) => {
            if i < before.len() {
                law_branches_are_heads(lines.drop_last(), i);
            } else {
                lemma_prefix_and_rest(e.full_name, "refs/heads/"@);
            }
        },
        _ => law_branches_are_heads(lines.drop_last(), i),
    }
}

/// Every listed tag is a reference below `refs/tags/`, its short name is its
/// full name without that prefix, and it is the tag itself, never the commit
/// behind it.
pub proof fn law_tags_are_tags(lines: Seq<Seq<char>>, i: int)
    requires
        0 <= i < tags_in(lines).len(),
    ensures
        tags_in(lines)[i].full_name == "refs/tags/"@ + tags_in(lines)[i].short_name,
        !text::finishes_with(tags_in(lines)[i].full_name, "^{}"@),
    decreases lines.len(),
{
    let before = tags_in(lines.drop_last());
    match line_says(lines.last()) {
        Line::Tag(e) => {
            if i < before.len() {
                law_tags_are_tags(lines.drop_last(), i);
            } else {
                lemma_prefix_and_rest(e.full_name, "refs/tags/"@);
            }
        },
        _ => law_tags_are_tags(lines.drop_last(), i),
    }
}

proof fn lemma_prefix_and_rest(s: Seq<char>, key: Seq<char>)
    requires
        text::begins_with(s, key),
    ensures
        s == key + s.skip(key.len() as int),
{
    assert(s =~= s.subrange(0, key.len() as int) + s.skip(key.len() as int));
}

/// A line about a symbolic reference other than HEAD changes nothing: neither
/// the default branch nor the lists.
pub proof fn law_only_head_names_the_default(
    lines: Seq<Seq<char>>,
    target: Seq<char>,
    name: Seq<char>,
)
    requires
        !target.contains('\t'),
        text::trimmed(name) != "HEAD"@,
    ensures
        ({
            let more = lines.push("ref: "@ + target + seq!['\t'] + name);
            &&& default_in(more) == default_in(lines)
            &&& branches_in(more) == branches_in(lines)
            &&& tags_in(more) == tags_in(lines)
        }),
{
    let rest = target + seq!['\t'] + name;
    let line = "ref: "@ + target + seq!['\t'] + name;
    let more = lines.push(line);
    assert(more.drop_last() =~= lines);
    assert(line.subrange(0, "ref: "@.len() as int) =~= "ref: "@);
    assert(line.skip("ref: "@.len() as int) =~= rest);
    assert forall|j: int| 0 <= j < target.len() implies rest[j] != '\t' by {
        assert(target.contains(target[j]));
    }
    text::lemma_find_char(rest, '\t', target.len() as int);
    assert(rest.skip(target.len() as int + 1) =~= name);
}

/// The namespace is taken off a full name, whatever the name is, and a name outside the
/// two namespaces is kept whole.
pub proof fn law_short_names(name: Seq<char>)
    ensures
        short_of("refs/heads/"@ + name) == name,
        short_of("refs/tags/"@ + name) == name,
        !text::begins_with(name, "refs/heads/"@) && !text::begins_with(name, "refs/tags/"@)
            ==> short_of(name) == name,
{
    reveal_strlit("refs/heads/");
    reveal_strlit("refs/tags/");
    let (h, t) = ("refs/heads/"@ + name, "refs/tags/"@ + name);
    assert(h.subrange(0, 11) =~= "refs/heads/"@);
    assert(t.subrange(0, 10) =~= "refs/tags/"@);
    assert(h.skip(11) =~= name);
    assert(t.skip(10) =~= name);
    if text::begins_with(t, "refs/heads/"@) {
        assert(t.subrange(0, 11)[5] == "refs/heads/"@[5]);
    }
}

/// What a line of an object id, a tab and a name does to a listing. The space round both
/// aside, a name below `refs/heads/` adds one branch, and one below `refs/tags/` one
/// tag, at the end, with that name and the whole of that id. The commit behind an
/// annotated tag, HEAD, and names outside the two namespaces add nothing. No such line
/// changes the default branch.
pub proof fn law_what_a_line_adds(lines: Seq<Seq<char>>, oid: Seq<char>, rest: Seq<char>)
    requires
        !oid.contains('\t'),
        !text::begins_with(oid + seq!['\t'] + rest, "ref: "@),
    ensures
        ({
            let more = lines.push(oid + seq!['\t'] + rest);
            let name = text::trimmed(rest);
            let skipped = text::finishes_with(name, "^{}"@) || name == "HEAD"@;
            let branch = !skipped && text::begins_with(name, "refs/heads/"@);
            let tag = !skipped && text::begins_with(name, "refs/tags/"@);
            &&& default_in(more) == default_in(lines)
            &&& branch ==> branches_in(more) == branches_in(lines).push(
                RefEntryView {
                    full_name: name,
                    short_name: name.skip(11),
                    oid: text::trimmed(oid),
                },
            )
            &&& !branch ==> branches_in(more) == branches_in(lines)
            &&& tag ==> tags_in(more) == tags_in(lines).push(
                RefEntryView {
                    full_name: name,
                    short_name: name.skip(10),
                    oid: text::trimmed(oid),
                },
            )
            &&& !tag ==> tags_in(more) == tags_in(lines)
        }),
{
    reveal_strlit("refs/heads/");
    reveal_strlit("refs/tags/");
    let line = oid + seq!['\t'] + rest;
    assert(lines.push(line).drop_last() =~= lines);
    text::law_split_at_the_first(oid, '\t', rest);
    let name = text::trimmed(rest);
    if text::begins_with(name, "refs/heads/"@) && text::begins_with(name, "refs/tags/"@) {
        assert(name.subrange(0, 11)[5] == 'h');
        assert(name.subrange(0, 10)[5] == 't');
        assert(name[5] == 'h' && name[5] == 't');
    }
}

/// A line without a tab says nothing.
pub proof fn law_line_without_a_tab_adds_nothing(lines: Seq<Seq<char>>, line: Seq<char>)
    requires
        !line.contains('\t'),
    ensures
        default_in(lines.push(line)) == default_in(lines),
        branches_in(lines.push(line)) == branches_in(lines),
        tags_in(lines.push(line)) == tags_in(lines),
{
    assert(lines.push(line).drop_last() =~= lines);
    text::law_split_at_the_first(line, '\t', Seq::empty());
    if text::begins_with(line, "ref: "@) {
        let rest = line.skip("ref: "@.len() as int);
        assert forall|i: int| 0 <= i < rest.len() implies rest[i] != '\t' by {
            assert(line.contains(line[i + "ref: "@.len()]));
        }
        assert(!rest.contains('\t'));
        text::law_split_at_the_first(rest, '\t', Seq::empty());
    }
}

/// The line that tells where HEAD points makes that branch the default one, and the
/// last such line counts. HEAD that points to no branch changes nothing, and neither
/// does such a line add a branch or a tag.
pub proof fn law_head_names_the_default(
    lines: Seq<Seq<char>>,
    target: Seq<char>,
    name: Seq<char>,
)
    requires
        !target.contains('\t'),
        text::trimmed(name) == "HEAD"@,
    ensures
        ({
            let more = lines.push("ref: "@ + target + seq!['\t'] + name);
            let to = text::trimmed(target);
            &&& default_in(more) == if text::begins_with(to, "refs/heads/"@) {
                Some(to.skip(11))
            } else {
                default_in(lines)
            }
            &&& branches_in(more) == branches_in(lines)
            &&& tags_in(more) == tags_in(lines)
        }),
{
    reveal_strlit("refs/heads/");
    let rest = target + seq!['\t'] + name;
    let line = "ref: "@ + target + seq!['\t'] + name;
    assert(lines.push(line).drop_last() =~= lines);
    assert(line.subrange(0, "ref: "@.len() as int) =~= "ref: "@);
    assert(line.skip("ref: "@.len() as int) =~= rest);
    text::law_split_at_the_first(target, '\t', name);
}

/// A listing is read line by line, and an empty one offers nothing.
pub proof fn law_listing_is_read_by_lines(output: Seq<char>)
    ensures
        listed(output).default_branch == default_in(text::lines_of(output)),
        listed(output).branches == branches_in(text::lines_of(output)),
        listed(output).tags == tags_in(text::lines_of(output)),
        default_in(Seq::empty()) is None,
        branches_in(Seq::empty()).len() == 0,
        tags_in(Seq::empty()).len() == 0,
{
}

/// Is there no space in the text?
pub open spec fn has_no_space(s: Seq<char>) -> bool {
    forall|i: int| 0 <= i < s.len() ==> !text::is_space(#[trigger] s[i])
}

proof fn lemma_clean_text(s: Seq<char>)
    requires
        has_no_space(s),
    ensures
        text::trimmed(s) == s,
        !s.contains('\t'),
        !s.contains('\n'),
{
    text::law_trim_takes_off_space_alone(Seq::empty(), s, Seq::empty());
    assert(Seq::empty() + s + Seq::empty() =~= s);
}

/// Every ref of a remote comes through whole: a line with the id of an object and the
/// full name of a branch, appended to a listing, adds exactly that branch, with all of
/// its name and all of its id, and changes nothing else; and so for a tag.
pub proof fn law_refs_come_through_whole(listing: Seq<char>, oid: Seq<char>, name: Seq<char>)
    requires
        listing.len() == 0 || listing[listing.len() - 1] == '\n',
        forall|i: int| 0 <= i < oid.len() ==> !text::is_space(#[trigger] oid[i]),
        forall|i: int| 0 <= i < name.len() ==> !text::is_space(#[trigger] name[i]),
        !text::finishes_with("refs/heads/"@ + name, "^{}"@),
        !text::finishes_with("refs/tags/"@ + name, "^{}"@),
    ensures
        listed(listing + (oid + seq!['\t'] + ("refs/heads/"@ + name))) == (RemoteRefsView {
            branches: listed(listing).branches.push(
                RefEntryView { full_name: "refs/heads/"@ + name, short_name: name, oid },
            ),
            ..listed(listing)
        }),
        listed(listing + (oid + seq!['\t'] + ("refs/tags/"@ + name))) == (RemoteRefsView {
            tags: listed(listing).tags.push(
                RefEntryView { full_name: "refs/tags/"@ + name, short_name: name, oid },
            ),
            ..listed(listing)
        }),
{
    reveal_strlit("refs/heads/");
    reveal_strlit("refs/tags/");
    reveal_strlit("HEAD");
    assert(has_no_space(oid));
    lemma_clean_text(oid);
    lemma_one_ref(listing, oid, "refs/heads/"@ + name);
    lemma_one_ref(listing, oid, "refs/tags/"@ + name);
    let (h, t) = ("refs/heads/"@ + name, "refs/tags/"@ + name);
    assert(h.subrange(0, 11) =~= "refs/heads/"@);
    assert(t.subrange(0, 10) =~= "refs/tags/"@);
    assert(h.skip(11) =~= name);
    assert(t.skip(10) =~= name);
    assert(h.len() > 4 && t.len() > 4);
    if text::begins_with(t, "refs/heads/"@) {
        assert(t.subrange(0, 11)[5] == 'h');
    }
    if text::begins_with(h, "refs/tags/"@) {
        assert(h.subrange(0, 10)[5] == 't');
    }
}

proof fn lemma_one_ref(listing: Seq<char>, oid: Seq<char>, name: Seq<char>)
    requires
        listing.len() == 0 || listing[listing.len() - 1] == '\n',
        has_no_space(oid),
        has_no_space(name),
    ensures
        ({
            let line = oid + seq!['\t'] + name;
            let lines = text::lines_of(listing);
            let skipped = text::finishes_with(name, "^{}"@) || name == "HEAD"@;
            let branch = !skipped && text::begins_with(name, "refs/heads/"@);
            let tag = !skipped && text::begins_with(name, "refs/tags/"@);
            &&& text::lines_of(listing + line) == lines.push(line)
            &&& default_in(lines.push(line)) == default_in(lines)
            &&& branch ==> branches_in(lines.push(line)) == branches_in(lines).push(
                RefEntryView { full_name: name, short_name: name.skip(11), oid },
            )
            &&& !branch ==> branches_in(lines.push(line)) == branches_in(lines)
            &&& tag ==> tags_in(lines.push(line)) == tags_in(lines).push(
                RefEntryView { full_name: name, short_name: name.skip(10), oid },
            )
            &&& !tag ==> tags_in(lines.push(line)) == tags_in(lines)
        }),
{
    reveal_strlit("ref: ");
    lemma_clean_text(oid);
    lemma_clean_text(name);
    let line = oid + seq!['\t'] + name;
    assert forall|i: int| 0 <= i < line.len() implies line[i] != '\n' by {
        if i < oid.len() {
            assert(!text::is_space(oid[i]));
        } else if i > oid.len() {
            assert(!text::is_space(name[i - oid.len() - 1]));
        }
    }
    assert(!line.contains('\n'));
    if text::begins_with(line, "ref: "@) {
        assert(line.subrange(0, 5)[4] == ' ');
        if oid.len() > 4 {
            assert(!text::is_space(oid[4]));
        } else {
            assert(line.subrange(0, 5)[oid.len() as int] == '\t');
        }
    }
    text::law_lines_of_an_appended_line(listing, line);
    law_what_a_line_adds(text::lines_of(listing), oid, name);
}

/// Entries are spoken of one by one, each with its own names and object.
pub proof fn law_entries_are_item_by_item(v: Seq<RefEntry>, r: RemoteRefs, i: int)
    ensures
        entries(v).len() == v.len(),
        0 <= i < v.len() ==> entries(v)[i].full_name == v[i].full_name@
            && entries(v)[i].short_name == v[i].short_name@ && entries(v)[i].oid == v[i].oid@,
        r@.branches == entries(r.branches@),
        r@.tags == entries(r.tags@),
        r@.default_branch is Some <==> r.default_branch is Some,
        r.default_branch matches Some(s) ==> r@.default_branch == Some(s@),
{
}

/// A remote is asked for all its refs and for where its symbolic ones point.
pub proof fn law_how_a_remote_is_listed(url: Seq<char>)
    ensures
        ls_remote_command(url) == seq!["ls-remote"@, "--symref"@, url],
{
}

} // verus!
