use vstd::prelude::*;

verus! {

/// Tag that marks a capture file.
pub const FILE_TAG: char = '\u{1F4C1}';

/// Tag that marks a live network interface.
pub const INTERFACE_TAG: char = '\u{1F310}';

/// Where frames come from: a capture file or a live interface, by name.
#[derive(Debug, Clone, Hash, Eq)]
pub enum Source {
    File(String),
    Interface(String),
}

pub enum SourceView {
    File(Seq<char>),
    Interface(Seq<char>),
}

impl View for Source {
    type V = SourceView;

    open spec fn view(&self) -> SourceView {
        match self {
            Source::File(name) => SourceView::File(name@),
            Source::Interface(name) => SourceView::Interface(name@),
        }
    }
}

impl PartialEq for Source {
    fn eq(&self, other: &Self) -> (r: bool)
        ensures
            r == (self@ == other@),
    {
        match (self, other) {
            (Source::File(a), Source::File(b)) => a.eq(b),
            (Source::Interface(a), Source::Interface(b)) => a.eq(b),
            _ => false,
        }
    }
}

impl vstd::std_specs::cmp::PartialEqSpecImpl for Source {
    open spec fn obeys_eq_spec() -> bool {
        true
    }

    open spec fn eq_spec(&self, other: &Self) -> bool {
        self@ == other@
    }
}

/// The pieces of `s` between its spaces, in order: one more piece than there are spaces.
pub open spec fn split_on_space(s: Seq<char>) -> Seq<Seq<char>>
    decreases s.len(),
{
    if s.len() == 0 {
        seq![Seq::empty()]
    } else {
        let prev = split_on_space(s.drop_last());
        if s.last() == ' ' {
            prev.push(Seq::empty())
        } else {
            prev.update(prev.len() - 1, prev.last().push(s.last()))
        }
    }
}

/// The source that a tag word and a name word stand for.
pub open spec fn source_of_words(words: Seq<Seq<char>>) -> Option<SourceView> {
    if words.len() != 2 {
        None
    } else if words[0] == seq![FILE_TAG] {
        Some(SourceView::File(words[1]))
    } else if words[0] == seq![INTERFACE_TAG] {
        Some(SourceView::Interface(words[1]))
    } else {
        None
    }
}

/// The textual form of a source: its tag, a space, its name.
pub open spec fn source_text(s: SourceView) -> Seq<char> {
    match s {
        SourceView::File(name) => seq![FILE_TAG, ' '] + name,
        SourceView::Interface(name) => seq![INTERFACE_TAG, ' '] + name,
    }
}

pub open spec fn has_no_space(s: Seq<char>) -> bool {
    forall|i: int| 0 <= i < s.len() ==> s[i] != ' '
}

/// Relies on `str::split` with a `char` pattern: the pieces between the occurrences of
/// the pattern, in order, empty pieces included.
#[verifier::external_body]
fn split_words(s: &str) -> (r: Vec<String>)
    ensures
        r@.len() == split_on_space(s@).len(),
        forall|i: int| 0 <= i < r@.len() ==> (#[trigger] r@[i])@ == split_on_space(s@)[i],
{
    s.split(' ').map(String::from).collect()
}

/// Relies on `format!` with two `{}` arguments separated by one space: the two strings
/// joined by that space.
#[verifier::external_body]
fn join_with_space(a: &str, b: &str) -> (r: String)
    ensures
        r@ == a@ + seq![' '] + b@,
{
    format!("{} {}", a, b)
}

/// Relies on `char::to_string`: the string that holds that one character.
#[verifier::external_body]
fn char_string(c: char) -> (r: String)
    ensures
        r@ == seq![c],
{
    c.to_string()
}

impl Source {
    /// Reads the textual form `<tag> <name>`; `None` unless it splits on spaces into
    /// exactly a known tag and a name.
    pub fn from_string(src_str: String) -> (r: Option<Self>)
        ensures
            match r {
                Some(s) => source_of_words(split_on_space(src_str@)) == Some(s@),
                None => source_of_words(split_on_space(src_str@)).is_none(),
            },
    {
        let words = split_words(src_str.as_str());
        if words.len() != 2 {
            return None;
        }
        let name = words[1].clone();
        let file_tag = char_string(FILE_TAG);
        let interface_tag = char_string(INTERFACE_TAG);
        if words[0] == file_tag {
            Some(Source::File(name))
        } else if words[0] == interface_tag {
            Some(Source::Interface(name))
        } else {
            None
        }
    }

    /// The textual form: the source's tag, a space, its name.
    pub fn to_display_string(&self) -> (r: String)
        ensures
            r@ == source_text(self@),
    {
        match self {
            Source::File(name) => {
                let tag = char_string(FILE_TAG);
                let r = join_with_space(tag.as_str(), name.as_str());
                assert(r@ =~= source_text(self@));
                r
            },
            Source::Interface(name) => {
                let tag = char_string(INTERFACE_TAG);
                let r = join_with_space(tag.as_str(), name.as_str());
                assert(r@ =~= source_text(self@));
                r
            },
        }
    }
}

proof fn lemma_split_len(s: Seq<char>)
    ensures
        split_on_space(s).len() >= 1,
    decreases s.len(),
{
    if s.len() > 0 {
        lemma_split_len(s.drop_last());
    }
}

proof fn lemma_split_after_space(a: Seq<char>, b: Seq<char>)
    requires
        has_no_space(b),
    ensures
        split_on_space(a + seq![' '] + b) == split_on_space(a).push(b),
    decreases b.len(),
{
    let s = a + seq![' '] + b;
    if b.len() == 0 {
        assert(s.drop_last() =~= a);
        assert(s.last() == ' ');
        assert(b =~= Seq::<char>::empty());
    } else {
        lemma_split_after_space(a, b.drop_last());
        assert(s.drop_last() =~= a + seq![' '] + b.drop_last());
        assert(s.last() == b.last());
        assert(b.drop_last().push(b.last()) =~= b);
        lemma_split_len(a);
        let prev = split_on_space(a).push(b.drop_last());
        assert(prev.update(prev.len() - 1, prev.last().push(b.last())) =~= split_on_space(a).push(b));
    }
}

/// Reading back the textual form of a source whose name has no space gives the source.
pub proof fn lemma_source_text_round_trip(s: SourceView)
    requires
        match s {
            SourceView::File(name) => has_no_space(name),
            SourceView::Interface(name) => has_no_space(name),
        },
    ensures
        source_of_words(split_on_space(source_text(s))) == Some(s),
{
    let (tag, name) = match s {
        SourceView::File(name) => (FILE_TAG, name),
        SourceView::Interface(name) => (INTERFACE_TAG, name),
    };
    assert(source_text(s) =~= seq![tag] + seq![' '] + name);
    lemma_split_after_space(seq![tag], name);
    let one = seq![tag];
    assert(one.drop_last() =~= Seq::<char>::empty());
    assert(one.last() == tag);
    assert(tag != ' ');
    assert(Seq::<char>::empty().push(tag) =~= one);
    assert(split_on_space(Seq::<char>::empty()) =~= seq![Seq::<char>::empty()]);
    assert(split_on_space(one) =~= seq![one]);
    assert(split_on_space(one).push(name) =~= seq![one, name]);
    assert(seq![FILE_TAG][0] != seq![INTERFACE_TAG][0]);
    assert(seq![FILE_TAG] != seq![INTERFACE_TAG]);
}

} // verus!
