use vstd::prelude::*;
use vstd::string::StringExecFns;

use crate::json::{decimal, write_decimal};
use crate::lifecycle::strs_view;

verus! {

/// The sections, overview and notes of one chapter.
#[derive(Debug, Clone, PartialEq, Eq)]
pub struct ChapterOutline {
    pub title: String,
    pub subtitle: String,
    pub overview: Option<String>,
    pub sections: Option<Vec<SectionOutline>>,
    pub notes: Option<Vec<String>>,
}

/// One section of a chapter and its key points.
#[derive(Debug, Clone, PartialEq, Eq)]
pub struct SectionOutline {
    pub title: String,
    pub key_points: Vec<String>,
}

/// A review: a summary of strengths and weaknesses and concrete suggestions.
#[derive(Debug, Clone, PartialEq, Eq)]
pub struct ReviewResult {
    pub summary: String,
    pub suggestions: Vec<String>,
}

/// The outline of a book, filled in step by step.
#[derive(Debug, Clone, PartialEq, Eq)]
pub struct BookOutline {
    pub title: Option<String>,
    pub subtitle: Option<String>,
    pub overview: Option<String>,
    pub design_spine: Option<String>,
    pub notes: Option<Vec<String>>,
    pub chapters: Option<Vec<ChapterOutline>>,
}

/// Each string followed by `suffix`, preceded by `prefix`.
pub open spec fn lines_md(items: Seq<Seq<char>>, prefix: Seq<char>, suffix: Seq<char>) -> Seq<char>
    decreases items.len(),
{
    if items.len() == 0 {
        Seq::empty()
    } else {
        lines_md(items.drop_last(), prefix, suffix) + prefix + items.last() + suffix
    }
}

pub open spec fn section_md(s: SectionOutline) -> Seq<char> {
    "#### "@ + s.title@ + "\n"@ + lines_md(strs_view(s.key_points@), "- "@, "\n"@) + "\n"@
}

pub open spec fn sections_md(ss: Seq<SectionOutline>) -> Seq<char>
    decreases ss.len(),
{
    if ss.len() == 0 {
        Seq::empty()
    } else {
        sections_md(ss.drop_last()) + section_md(ss.last())
    }
}

/// A titled block holding `text`, or nothing when there is no text.
pub open spec fn block_md(heading: Seq<char>, text: Option<String>) -> Seq<char> {
    match text {
        Some(t) => heading + t@ + "\n\n"@,
        None => Seq::empty(),
    }
}

/// A titled list of notes, one paragraph each; nothing when there are none.
pub open spec fn notes_md(heading: Seq<char>, notes: Option<Vec<String>>) -> Seq<char> {
    match notes {
        Some(n) => if n@.len() > 0 {
            heading + lines_md(strs_view(n@), Seq::empty(), "\n\n"@)
        } else {
            Seq::empty()
        },
        None => Seq::empty(),
    }
}

/// The markdown of chapter `index` (counted from 0, shown from 1).
pub open spec fn chapter_md(c: ChapterOutline, index: nat) -> Seq<char> {
    "## Chapter "@ + decimal(index + 1) + ": "@ + c.title@ + " - "@ + c.subtitle@ + "\n\n"@
        + block_md("### Overview\n\n"@, c.overview) + match c.sections {
        Some(ss) => if ss@.len() > 0 {
            "### Sections\n\n"@ + sections_md(ss@)
        } else {
            Seq::empty()
        },
        None => Seq::empty(),
    } + notes_md("### Notes\n\n"@, c.notes)
}

pub open spec fn chapters_md(cs: Seq<ChapterOutline>) -> Seq<char>
    decreases cs.len(),
{
    if cs.len() == 0 {
        Seq::empty()
    } else {
        chapters_md(cs.drop_last()) + chapter_md(cs.last(), (cs.len() - 1) as nat)
    }
}

pub open spec fn book_md(b: BookOutline) -> Seq<char> {
    "# "@ + match b.title {
        Some(t) => t@,
        None => "Untitled book"@,
    } + match b.subtitle {
        Some(s) => ": "@ + s@,
        None => Seq::empty(),
    } + "\n\n"@ + block_md("## Overview\n\n"@, b.overview) + block_md(
        "## Design Spine\n\n"@,
        b.design_spine,
    ) + notes_md("## Additional Notes\n\n"@, b.notes) + match b.chapters {
        Some(cs) => chapters_md(cs@),
        None => Seq::empty(),
    }
}

/// Appends each string between `prefix` and `suffix`.
fn write_lines(out: &mut String, items: &Vec<String>, prefix: &str, suffix: &str)
    ensures
        final(out)@ == old(out)@ + lines_md(strs_view(items@), prefix@, suffix@),
{
    let ghost start = out@;
    let mut i: usize = 0;
    while i < items.len()
        invariant
            i <= items.len(),
            out@ == start + lines_md(strs_view(items@.take(i as int)), prefix@, suffix@),
        decreases items.len() - i,
    {
        out.append(prefix);
        out.append(items[i].as_str());
        out.append(suffix);
        i = i + 1;
        proof {
            let prev = strs_view(items@.take(i - 1));
            let next = strs_view(items@.take(i as int));
            assert(next.drop_last() =~= prev);
            assert(out@ =~= start + lines_md(next, prefix@, suffix@));
        }
    }
    proof {
        assert(items@.take(items.len() as int) =~= items@);
    }
}

/// Appends `heading`, the text and a blank line when there is a text.
fn write_block(out: &mut String, heading: &str, text: &Option<String>)
    ensures
        final(out)@ == old(out)@ + block_md(heading@, *text),
{
    match text {
        Some(t) => {
            out.append(heading);
            out.append(t.as_str());
            out.append("\n\n");
            assert(out@ =~= old(out)@ + block_md(heading@, *text));
        },
        None => {
            assert(out@ =~= old(out)@ + block_md(heading@, *text));
        },
    }
}

fn write_notes(out: &mut String, heading: &str, notes: &Option<Vec<String>>)
    ensures
        final(out)@ == old(out)@ + notes_md(heading@, *notes),
{
    match notes {
        Some(n) => {
            if n.len() > 0 {
                out.append(heading);
                write_lines(out, n, "", "\n\n");
                proof {
                    reveal_strlit("");
                    assert(""@ =~= Seq::<char>::empty());
                }
                assert(out@ =~= old(out)@ + notes_md(heading@, *notes));
            } else {
                assert(out@ =~= old(out)@ + notes_md(heading@, *notes));
            }
        },
        None => {
            assert(out@ =~= old(out)@ + notes_md(heading@, *notes));
        },
    }
}

impl ChapterOutline {
    /// The markdown of this chapter, numbered `chapter_index + 1`.
    pub fn render_to_markdown(&self, chapter_index: usize) -> (r: String)
        requires
            chapter_index < usize::MAX,
        ensures
            r@ == chapter_md(*self, chapter_index as nat),
    {
        let mut markdown = String::from_str("## Chapter ");
        write_decimal((chapter_index + 1) as u64, &mut markdown);
        markdown.append(": ");
        markdown.append(self.title.as_str());
        markdown.append(" - ");
        markdown.append(self.subtitle.as_str());
        markdown.append("\n\n");
        write_block(&mut markdown, "### Overview\n\n", &self.overview);
        let ghost before_sections = markdown@;
        match &self.sections {
            Some(sections) => {
                if sections.len() > 0 {
                    markdown.append("### Sections\n\n");
                    let ghost start = markdown@;
                    let mut i: usize = 0;
                    while i < sections.len()
                        invariant
                            i <= sections.len(),
                            markdown@ == start + sections_md(sections@.take(i as int)),
                        decreases sections.len() - i,
                    {
                        let section = &sections[i];
                        markdown.append("#### ");
                        markdown.append(section.title.as_str());
                        markdown.append("\n");
                        write_lines(&mut markdown, &section.key_points, "- ", "\n");
                        markdown.append("\n");
                        i = i + 1;
                        proof {
                            let prev = sections@.take(i - 1);
                            let next = sections@.take(i as int);
                            assert(next.drop_last() =~= prev);
                            assert(markdown@ =~= start + sections_md(next));
                        }
                    }
                    proof {
                        assert(sections@.take(sections.len() as int) =~= sections@);
                    }
                }
            },
            None => {},
        }
        let ghost after_sections = markdown@;
        write_notes(&mut markdown, "### Notes\n\n", &self.notes);
        proof {
            assert(after_sections =~= before_sections + match self.sections {
                Some(ss) => if ss@.len() > 0 {
                    "### Sections\n\n"@ + sections_md(ss@)
                } else {
                    Seq::empty()
                },
                None => Seq::empty(),
            });
            assert(markdown@ =~= chapter_md(*self, chapter_index as nat));
        }
        markdown
    }
}

impl BookOutline {
    /// The markdown of the whole outline.
    pub fn render_to_markdown(&self) -> (r: String)
        requires
            self.chapters matches Some(cs) ==> cs@.len() < usize::MAX,
        ensures
            r@ == book_md(*self),
    {
        let mut markdown = String::from_str("# ");
        match &self.title {
            Some(t) => markdown.append(t.as_str()),
            None => markdown.append("Untitled book"),
        }
        match &self.subtitle {
            Some(s) => {
                markdown.append(": ");
                markdown.append(s.as_str());
            },
            None => {},
        }
        markdown.append("\n\n");
        write_block(&mut markdown, "## Overview\n\n", &self.overview);
        write_block(&mut markdown, "## Design Spine\n\n", &self.design_spine);
        write_notes(&mut markdown, "## Additional Notes\n\n", &self.notes);
        let ghost before_chapters = markdown@;
        match &self.chapters {
            Some(chapters) => {
                let mut i: usize = 0;
                while i < chapters.len()
                    invariant
                        i <= chapters.len(),
                        chapters@.len() < usize::MAX,
                        markdown@ == before_chapters + chapters_md(chapters@.take(i as int)),
                    decreases chapters.len() - i,
                {
                    let chapter_markdown = chapters[i].render_to_markdown(i);
                    markdown.append(chapter_markdown.as_str());
                    i = i + 1;
                    proof {
                        let prev = chapters@.take(i - 1);
                        let next = chapters@.take(i as int);
                        assert(next.drop_last() =~= prev);
                        assert(markdown@ =~= before_chapters + chapters_md(next));
                    }
                }
                proof {
                    assert(chapters@.take(chapters.len() as int) =~= chapters@);
                }
            },
            None => {},
        }
        proof {
            assert(markdown@ =~= book_md(*self));
        }
        markdown
    }
}

} // verus!
