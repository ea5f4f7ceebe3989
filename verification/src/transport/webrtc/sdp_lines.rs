//! Media sections of a session description.

use vstd::prelude::*;
use vstd::string::StrSliceExecFns;

use crate::text::collect_chars;

verus! {

/// The `(media kind, mid)` pairs of a session description, in order. An answer
/// belongs to an offer only if both have the same pairs.
pub type MlineSignature = Vec<(String, String)>;

/// What a signature says.
pub open spec fn signature_model(signature: Seq<(String, String)>) -> Seq<(Seq<char>, Seq<char>)> {
    signature.map_values(|section: (String, String)| (section.0@, section.1@))
}

/// Unicode white space.
pub open spec fn is_space(c: char) -> bool {
    ||| '\u{9}' <= c <= '\u{d}'
    ||| c == ' '
    ||| c == '\u{85}'
    ||| c == '\u{a0}'
    ||| c == '\u{1680}'
    ||| '\u{2000}' <= c <= '\u{200a}'
    ||| c == '\u{2028}'
    ||| c == '\u{2029}'
    ||| c == '\u{202f}'
    ||| c == '\u{205f}'
    ||| c == '\u{3000}'
}

fn is_space_char(c: char) -> (space: bool)
    ensures
        space == is_space(c),
{
    ('\u{9}' <= c && c <= '\u{d}') || c == ' ' || c == '\u{85}' || c == '\u{a0}' || c == '\u{1680}'
        || ('\u{2000}' <= c && c <= '\u{200a}') || c == '\u{2028}' || c == '\u{2029}' || c
        == '\u{202f}' || c == '\u{205f}' || c == '\u{3000}'
}

/// `text` without the white space it starts with.
pub open spec fn trim_start(text: Seq<char>) -> Seq<char>
    decreases text.len(),
{
    if text.len() > 0 && is_space(text[0]) {
        trim_start(text.drop_first())
    } else {
        text
    }
}

/// `text` without the white space it ends with.
pub open spec fn trim_end(text: Seq<char>) -> Seq<char>
    decreases text.len(),
{
    if text.len() > 0 && is_space(text.last()) {
        trim_end(text.drop_last())
    } else {
        text
    }
}

/// `text` up to its first white space.
pub open spec fn leading_word(text: Seq<char>) -> Seq<char>
    decreases text.len(),
{
    if text.len() > 0 && !is_space(text[0]) {
        seq![text[0]] + leading_word(text.drop_first())
    } else {
        Seq::empty()
    }
}

/// `line` without the carriage returns it ends with.
pub open spec fn strip_returns(line: Seq<char>) -> Seq<char>
    decreases line.len(),
{
    if line.len() > 0 && line.last() == '\r' {
        strip_returns(line.drop_last())
    } else {
        line
    }
}

/// How many characters stand before the first line feed.
pub open spec fn line_len(text: Seq<char>) -> nat
    decreases text.len(),
{
    if text.len() == 0 || text[0] == '\n' {
        0
    } else {
        1 + line_len(text.drop_first())
    }
}

/// The sections after one more line: `m=` opens a section of the kind that
/// follows, `a=mid:` names the section that is open.
pub open spec fn after_line(
    sections: Seq<(Seq<char>, Seq<char>)>,
    line: Seq<char>,
) -> Seq<(Seq<char>, Seq<char>)> {
    let line = strip_returns(line);
    if "m="@.is_prefix_of(line) {
        sections.push((leading_word(trim_start(line.skip(2))), Seq::empty()))
    } else if "a=mid:"@.is_prefix_of(line) && sections.len() > 0 {
        sections.drop_last().push((sections.last().0, trim_end(trim_start(line.skip(6)))))
    } else {
        sections
    }
}

/// The sections after all lines of `text`.
pub open spec fn after_lines(
    sections: Seq<(Seq<char>, Seq<char>)>,
    text: Seq<char>,
) -> Seq<(Seq<char>, Seq<char>)>
    decreases text.len(),
{
    let end = line_len(text) as int;
    let next = after_line(sections, text.take(end));
    if end >= text.len() {
        next
    } else {
        after_lines(next, text.skip(end + 1))
    }
}

/// The media sections of a session description.
pub open spec fn media_sections(sdp: Seq<char>) -> Seq<(Seq<char>, Seq<char>)> {
    after_lines(Seq::empty(), sdp)
}

proof fn lemma_line_len(text: Seq<char>, end: int)
    requires
        0 <= end <= text.len(),
        forall|i: int| 0 <= i < end ==> text[i] != '\n',
        end == text.len() || text[end] == '\n',
    ensures
        line_len(text) == end,
    decreases text.len(),
{
    if end > 0 {
        lemma_line_len(text.drop_first(), end - 1);
    }
}

proof fn lemma_line_ends(text: Seq<char>)
    ensures
        line_len(text) <= text.len(),
        forall|i: int| 0 <= i < line_len(text) ==> text[i] != '\n',
        line_len(text) < text.len() ==> text[line_len(text) as int] == '\n',
    decreases text.len(),
{
    if text.len() > 0 && text[0] != '\n' {
        let rest = text.drop_first();
        lemma_line_ends(rest);
        assert forall|i: int| 0 <= i < line_len(text) implies text[i] != '\n' by {
            if i > 0 {
                assert(text[i] == rest[i - 1]);
            }
        }
    }
}

/// Lines that end before `tail` are read before it.
proof fn lemma_lines_in_turn(
    sections: Seq<(Seq<char>, Seq<char>)>,
    head: Seq<char>,
    tail: Seq<char>,
)
    requires
        head.len() > 0,
        head.last() == '\n',
    ensures
        after_lines(sections, head + tail) == after_lines(after_lines(sections, head), tail),
    decreases head.len(),
{
    lemma_line_ends(head);
    let end = line_len(head) as int;
    assert(end < head.len());
    lemma_line_len(head + tail, end);
    assert((head + tail).take(end) =~= head.take(end));
    let next = after_line(sections, head.take(end));
    let rest = head.skip(end + 1);
    assert((head + tail).skip(end + 1) =~= rest + tail);
    if rest.len() == 0 {
        reveal_strlit("m=");
        reveal_strlit("a=mid:");
        assert(rest + tail =~= tail);
        assert(rest.take(0) =~= rest);
        assert(strip_returns(rest) == rest);
        assert(after_lines(next, rest) == next);
    } else {
        lemma_lines_in_turn(next, rest, tail);
    }
}

/// Lines change at most the last of the sections before them.
proof fn lemma_lines_keep_closed_sections(
    closed_sections: Seq<(Seq<char>, Seq<char>)>,
    sections: Seq<(Seq<char>, Seq<char>)>,
    text: Seq<char>,
)
    requires
        sections.len() > 0,
    ensures
        after_lines(closed_sections + sections, text) == closed_sections + after_lines(
            sections,
            text,
        ),
    decreases text.len(),
{
    lemma_line_ends(text);
    let end = line_len(text) as int;
    let line = text.take(end);
    let next = after_line(sections, line);
    assert(after_line(closed_sections + sections, line) =~= closed_sections + next);
    if end < text.len() {
        lemma_lines_keep_closed_sections(closed_sections, next, text.skip(end + 1));
    }
}

proof fn lemma_stripping_keeps_m_line(line: Seq<char>)
    requires
        "m="@.is_prefix_of(line),
    ensures
        "m="@.is_prefix_of(strip_returns(line)),
    decreases line.len(),
{
    reveal_strlit("m=");
    assert(line[0] == "m="@[0] && line[1] == "m="@[1]) by {
        assert("m="@ =~= line.take(2));
        assert(line.take(2)[0] == line[0] && line.take(2)[1] == line[1]);
    }
    if line.last() == '\r' {
        assert(line.len() > 2);
        let shorter = line.drop_last();
        assert("m="@ =~= shorter.take(2));
        assert("m="@.is_prefix_of(shorter));
        lemma_stripping_keeps_m_line(shorter);
    }
}

/// A description may be read in parts: where it is split before an `m=` line,
/// its media sections are those of the first part and then those of the second.
pub proof fn lemma_media_sections_of_parts(head: Seq<char>, tail: Seq<char>)
    requires
        head.len() == 0 || head.last() == '\n',
        "m="@.is_prefix_of(tail),
    ensures
        media_sections(head + tail) == media_sections(head) + media_sections(tail),
{
    reveal_strlit("m=");
    reveal_strlit("a=mid:");
    let before = media_sections(head);
    let nothing = Seq::<(Seq<char>, Seq<char>)>::empty();
    if head.len() == 0 {
        assert(head + tail =~= tail);
        assert(head.take(0) =~= head);
        assert(strip_returns(head) == head);
        assert(before =~= nothing);
    } else {
        lemma_lines_in_turn(nothing, head, tail);
    }
    lemma_line_ends(tail);
    let end = line_len(tail) as int;
    let line = tail.take(end);
    assert(tail[0] == 'm' && tail[1] == '=') by {
        assert("m="@ =~= tail.take(2));
        assert(tail.take(2)[0] == tail[0] && tail.take(2)[1] == tail[1]);
    }
    assert(end >= 2);
    assert("m="@ =~= line.take(2));
    assert("m="@.is_prefix_of(line));
    lemma_stripping_keeps_m_line(line);
    let opened = after_line(nothing, line);
    assert(opened.len() == 1);
    assert(after_line(before, line) =~= before + opened);
    if end < tail.len() {
        lemma_lines_keep_closed_sections(before, opened, tail.skip(end + 1));
    }
    assert(after_lines(before, tail) =~= before + media_sections(tail));
}

/// Whether `prefix` stands at `from`, before `to`.
fn starts_with(chars: &Vec<char>, from: usize, to: usize, prefix: &str) -> (found: bool)
    requires
        from <= to <= chars@.len(),
    ensures
        found == prefix@.is_prefix_of(chars@.subrange(from as int, to as int)),
{
    let wanted = collect_chars(prefix);
    let ghost line = chars@.subrange(from as int, to as int);
    if wanted.len() > to - from {
        return false;
    }
    let mut i: usize = 0;
    while i < wanted.len()
        invariant
            i <= wanted@.len(),
            wanted@ == prefix@,
            wanted@.len() <= to - from,
            from <= to <= chars@.len(),
            line == chars@.subrange(from as int, to as int),
            forall|j: int| 0 <= j < i ==> wanted@[j] == #[trigger] line[j],
        decreases wanted@.len() - i,
    {
        if chars[from + i] != wanted[i] {
            assert(line[i as int] != wanted@[i as int]);
            assert(line.take(wanted@.len() as int)[i as int] == line[i as int]);
            return false;
        }
        assert(line[i as int] == wanted@[i as int]);
        i = i + 1;
    }
    assert(prefix@ =~= line.subrange(0, prefix@.len() as int));
    true
}

fn skip_spaces(chars: &Vec<char>, from: usize, to: usize) -> (start: usize)
    requires
        from <= to <= chars@.len(),
    ensures
        from <= start <= to,
        chars@.subrange(start as int, to as int) == trim_start(
            chars@.subrange(from as int, to as int),
        ),
{
    let mut start: usize = from;
    while start < to && is_space_char(chars[start])
        invariant
            from <= start <= to <= chars@.len(),
            trim_start(chars@.subrange(start as int, to as int)) == trim_start(
                chars@.subrange(from as int, to as int),
            ),
        decreases to - start,
    {
        assert(chars@.subrange(start as int, to as int).drop_first() =~= chars@.subrange(
            start + 1,
            to as int,
        ));
        start = start + 1;
    }
    start
}

fn drop_trailing_spaces(chars: &Vec<char>, from: usize, to: usize) -> (end: usize)
    requires
        from <= to <= chars@.len(),
    ensures
        from <= end <= to,
        chars@.subrange(from as int, end as int) == trim_end(
            chars@.subrange(from as int, to as int),
        ),
{
    let mut end: usize = to;
    while end > from && is_space_char(chars[end - 1])
        invariant
            from <= end <= to <= chars@.len(),
            trim_end(chars@.subrange(from as int, end as int)) == trim_end(
                chars@.subrange(from as int, to as int),
            ),
        decreases end - from,
    {
        assert(chars@.subrange(from as int, end as int).drop_last() =~= chars@.subrange(
            from as int,
            end - 1,
        ));
        end = end - 1;
    }
    end
}

fn drop_trailing_returns(chars: &Vec<char>, from: usize, to: usize) -> (end: usize)
    requires
        from <= to <= chars@.len(),
    ensures
        from <= end <= to,
        chars@.subrange(from as int, end as int) == strip_returns(
            chars@.subrange(from as int, to as int),
        ),
{
    let mut end: usize = to;
    while end > from && chars[end - 1] == '\r'
        invariant
            from <= end <= to <= chars@.len(),
            strip_returns(chars@.subrange(from as int, end as int)) == strip_returns(
                chars@.subrange(from as int, to as int),
            ),
        decreases end - from,
    {
        assert(chars@.subrange(from as int, end as int).drop_last() =~= chars@.subrange(
            from as int,
            end - 1,
        ));
        end = end - 1;
    }
    end
}

fn word_end(chars: &Vec<char>, from: usize, to: usize) -> (end: usize)
    requires
        from <= to <= chars@.len(),
    ensures
        from <= end <= to,
        chars@.subrange(from as int, end as int) == leading_word(
            chars@.subrange(from as int, to as int),
        ),
{
    let mut end: usize = from;
    while end < to && !is_space_char(chars[end])
        invariant
            from <= end <= to <= chars@.len(),
            chars@.subrange(from as int, end as int) + leading_word(
                chars@.subrange(end as int, to as int),
            ) == leading_word(chars@.subrange(from as int, to as int)),
        decreases to - end,
    {
        proof {
            let rest = chars@.subrange(end as int, to as int);
            let tail = chars@.subrange(end + 1, to as int);
            assert(rest.drop_first() =~= tail);
            assert(chars@.subrange(from as int, end as int) + (seq![rest[0]] + leading_word(tail))
                =~= chars@.subrange(from as int, end + 1) + leading_word(tail));
        }
        end = end + 1;
    }
    assert(chars@.subrange(from as int, end as int) + Seq::<char>::empty() =~= chars@.subrange(
        from as int,
        end as int,
    ));
    end
}

/// Reads the media sections of a session description.
pub fn mline_signature(sdp: &str) -> (sections: MlineSignature)
    ensures
        signature_model(sections@) == media_sections(sdp@),
{
    let chars = collect_chars(sdp);
    let mut sections: MlineSignature = Vec::new();
    let mut from: usize = 0;
    proof {
        assert(sdp@.skip(0) =~= sdp@);
        assert(signature_model(sections@) =~= Seq::empty());
        reveal_strlit("m=");
        reveal_strlit("a=mid:");
    }
    loop
        invariant
            from <= chars@.len(),
            chars@ == sdp@,
            "m="@.len() == 2,
            "a=mid:"@.len() == 6,
            after_lines(signature_model(sections@), sdp@.skip(from as int)) == media_sections(sdp@),
        decreases chars@.len() - from,
    {
        let mut feed: usize = from;
        while feed < chars.len() && chars[feed] != '\n'
            invariant
                from <= feed <= chars@.len(),
                forall|i: int| from <= i < feed ==> chars@[i] != '\n',
            decreases chars@.len() - feed,
        {
            feed = feed + 1;
        }
        let end = drop_trailing_returns(&chars, from, feed);
        let ghost before = signature_model(sections@);
        let ghost rest = sdp@.skip(from as int);
        let ghost line = chars@.subrange(from as int, feed as int);
        let ghost content = chars@.subrange(from as int, end as int);
        proof {
            lemma_line_len(rest, feed - from);
            assert(rest.take(feed - from) =~= line);
            if feed < chars@.len() {
                assert(rest.skip(feed - from + 1) =~= sdp@.skip(feed + 1));
            }
        }
        if starts_with(&chars, from, end, "m=") {
            let start = skip_spaces(&chars, from + 2, end);
            let stop = word_end(&chars, start, end);
            let kind = sdp.substring_char(start, stop).to_string();
            sections.push((kind, String::new()));
            proof {
                assert(content.skip(2) =~= chars@.subrange(from + 2, end as int));
                assert(signature_model(sections@) =~= after_line(before, line));
            }
        } else if starts_with(&chars, from, end, "a=mid:") {
            if let Some(open) = sections.pop() {
                let start = skip_spaces(&chars, from + 6, end);
                let stop = drop_trailing_spaces(&chars, start, end);
                let mid = sdp.substring_char(start, stop).to_string();
                sections.push((open.0, mid));
                proof {
                    assert(content.skip(6) =~= chars@.subrange(from + 6, end as int));
                }
            }
            assert(signature_model(sections@) =~= after_line(before, line));
        }
        assert(signature_model(sections@) =~= after_line(before, line));
        if feed == chars.len() {
            return sections;
        }
        from = feed + 1;
    }
}

/// Among the ASCII characters, white space is the space and the control
/// characters from tab to carriage return.
pub proof fn lemma_white_space_is_what_separates_words(c: char)
    requires
        c <= '\u{7f}',
    ensures
        is_space(c) <==> c == ' ' || '\u{9}' <= c <= '\u{d}',
{
}

/// A description is read line by line, each line up to its line feed.
pub proof fn lemma_descriptions_are_read_line_by_line(
    sections: Seq<(Seq<char>, Seq<char>)>,
    line: Seq<char>,
    rest: Seq<char>,
)
    requires
        forall|i: int| 0 <= i < line.len() ==> line[i] != '\n',
    ensures
        after_lines(sections, line) == after_line(sections, line),
        after_lines(sections, line.push('\n') + rest) == after_lines(
            after_line(sections, line),
            rest,
        ),
        media_sections(Seq::empty()) == Seq::<(Seq<char>, Seq<char>)>::empty(),
{
    lemma_line_len(line, line.len() as int);
    assert(line.take(line.len() as int) =~= line);
    let text = line.push('\n') + rest;
    assert forall|i: int| 0 <= i < line.len() implies text[i] != '\n' by {
        assert(text[i] == line[i]);
    }
    lemma_line_len(text, line.len() as int);
    assert(text.take(line.len() as int) =~= line);
    assert(text.skip(line.len() as int + 1) =~= rest);
    let nothing = Seq::<char>::empty();
    assert(nothing.take(0) =~= nothing);
    assert(strip_returns(nothing) == nothing);
    reveal_strlit("m=");
    reveal_strlit("a=mid:");
}

proof fn lemma_leading_word_ends_at_space(word: Seq<char>, rest: Seq<char>)
    requires
        forall|i: int| 0 <= i < word.len() ==> !is_space(#[trigger] word[i]),
        rest.len() == 0 || is_space(rest[0]),
    ensures
        leading_word(word + rest) == word,
    decreases word.len(),
{
    let text = word + rest;
    if word.len() == 0 {
        assert(text =~= rest);
        assert(leading_word(text) =~= word);
    } else {
        assert(text[0] == word[0]);
        assert(text.drop_first() =~= word.drop_first() + rest);
        assert forall|i: int| 0 <= i < word.drop_first().len() implies !is_space(
            #[trigger] word.drop_first()[i],
        ) by {
            assert(word.drop_first()[i] == word[i + 1]);
        }
        lemma_leading_word_ends_at_space(word.drop_first(), rest);
        assert(seq![word[0]] + word.drop_first() =~= word);
    }
}

/// A line that begins with `m=` opens a section of the kind that the next word
/// names, with or without a carriage return at its end.
pub proof fn lemma_media_lines_open_sections(
    sections: Seq<(Seq<char>, Seq<char>)>,
    kind: Seq<char>,
    rest: Seq<char>,
)
    requires
        kind.len() > 0,
        forall|i: int| 0 <= i < kind.len() ==> !is_space(#[trigger] kind[i]),
        rest.len() > 0 ==> is_space(rest[0]) && rest.last() != '\r',
    ensures
        after_line(sections, "m="@ + kind + rest) == sections.push((kind, Seq::empty())),
        after_line(sections, ("m="@ + kind + rest).push('\r')) == sections.push(
            (kind, Seq::empty()),
        ),
{
    reveal_strlit("m=");
    let line = "m="@ + kind + rest;
    assert(!is_space(kind[kind.len() - 1]));
    if rest.len() == 0 {
        assert(line[line.len() - 1] == kind[kind.len() - 1]);
    } else {
        assert(line[line.len() - 1] == rest[rest.len() - 1]);
    }
    assert(line.last() != '\r');
    assert(strip_returns(line) == line);
    assert(line.push('\r').drop_last() =~= line);
    assert("m="@ =~= line.take(2));
    assert(line.skip(2) =~= kind + rest);
    assert((kind + rest)[0] == kind[0]);
    assert(trim_start(kind + rest) == kind + rest);
    lemma_leading_word_ends_at_space(kind, rest);
}

/// A line that begins with `a=mid:` names the section that is open, and does
/// nothing where none is; white space around the name does not count.
pub proof fn lemma_mid_lines_name_the_open_section(
    sections: Seq<(Seq<char>, Seq<char>)>,
    mid: Seq<char>,
)
    requires
        mid.len() > 0,
        !is_space(mid[0]),
        !is_space(mid.last()),
    ensures
        sections.len() == 0 ==> after_line(sections, "a=mid:"@ + mid) == sections,
        sections.len() > 0 ==> {
            &&& after_line(sections, "a=mid:"@ + mid) == sections.drop_last().push(
                (sections.last().0, mid),
            )
            &&& after_line(sections, ("a=mid:"@ + mid).push('\r')) == sections.drop_last().push(
                (sections.last().0, mid),
            )
            &&& after_line(sections, ("a=mid: "@ + mid)) == sections.drop_last().push(
                (sections.last().0, mid),
            )
        },
{
    reveal_strlit("m=");
    reveal_strlit("a=mid:");
    reveal_strlit("a=mid: ");
    let line = "a=mid:"@ + mid;
    assert(line[line.len() - 1] == mid[mid.len() - 1]);
    assert(strip_returns(line) == line);
    assert(line.push('\r').drop_last() =~= line);
    assert("a=mid:"@ =~= line.take(6));
    assert(line.skip(6) =~= mid);
    assert(trim_start(mid) == mid);
    assert(trim_end(mid) == mid);
    assert(line[0] == 'a');
    if "m="@.is_prefix_of(line) {
        assert(line.take(2)[0] == 'm');
    }
    let spaced = "a=mid: "@ + mid;
    assert(spaced[spaced.len() - 1] == mid[mid.len() - 1]);
    assert(strip_returns(spaced) == spaced);
    assert("a=mid:"@ =~= spaced.take(6));
    let padded = spaced.skip(6);
    assert(padded[0] == ' ');
    assert(padded.drop_first() =~= mid);
    reveal_with_fuel(trim_start, 2);
    assert(trim_start(padded) == mid);
    assert(spaced[0] == 'a');
    if "m="@.is_prefix_of(spaced) {
        assert(spaced.take(2)[0] == 'm');
    }
}

/// Any other line says nothing of the media sections.
pub proof fn lemma_other_lines_say_nothing(
    sections: Seq<(Seq<char>, Seq<char>)>,
    line: Seq<char>,
)
    requires
        !"m="@.is_prefix_of(strip_returns(line)),
        !"a=mid:"@.is_prefix_of(strip_returns(line)),
    ensures
        after_line(sections, line) == sections,
{
}

} // verus!
