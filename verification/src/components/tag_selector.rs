use crate::dtos::tag_dto::{tag_views, TagDTO};
use crate::models::tag::TagRow;
use crate::seqs::spec_keep;
use crate::text::same_text;
use vstd::prelude::*;

verus! {

/// What happens to the tag selector.
pub enum Message {
    /// A tag was clicked.
    ToggleTag(TagDTO),
    /// The button for a new tag was pressed.
    CreateNewTagPressed,
    /// The name of the new tag was typed.
    NewTagNameChanged(String),
    /// The new tag was confirmed under this name.
    CreateNewTag(String),
    /// The new tag was made, and these are all tags now; or it was not made.
    TagCreateResult(Result<Vec<TagDTO>, String>),
    /// The new tag was given up.
    CancelNewTag,
}

/// What the tag selector asks of its owner.
#[derive(Debug, PartialEq, Eq)]
pub enum Action {
    /// Nothing.
    Idle,
    /// Make a tag of this name, and hand back all tags.
    CreateTag(String),
    /// Tell the user that the tag was made.
    Created,
    /// Tell the user that the tag could not be made.
    Failed,
}

/// The tag selector: the tags there are, those that are selected, and the
/// state of the field for a new tag. `selected` stands for a set: a click
/// never lets a tag occur in it twice.
pub struct TagSelector {
    pub selected: Vec<TagDTO>,
    pub available: Vec<TagDTO>,
    pub show_add_tag_button: bool,
    pub show_new_tag_input: bool,
    pub new_tag_name: String,
    pub colorized: bool,
}

/// Whether a tag is another than `tag`.
pub open spec fn other_than(tag: TagRow) -> spec_fn(TagRow) -> bool {
    |row: TagRow| row != tag
}

/// The selection after a click on `tag`: without the tag where it was
/// selected, and with it where it was not.
pub open spec fn spec_toggled(selected: Seq<TagRow>, tag: TagRow) -> Seq<TagRow> {
    if selected.contains(tag) {
        spec_keep(selected, other_than(tag))
    } else {
        selected.push(tag)
    }
}

/// Whether two tags are the same.
pub fn same_tag(a: &TagDTO, b: &TagDTO) -> (same: bool)
    ensures
        same == (a@ == b@),
{
    a.id == b.id && a.color == b.color && same_text(a.name.as_str(), b.name.as_str())
}

impl TagSelector {
    /// A selector over the given tags, with none selected.
    pub fn new(available: Vec<TagDTO>, show_add_tag_button: bool, colorized: bool) -> (selector:
        TagSelector)
        ensures
            selector.selected@.len() == 0,
            selector.available == available,
            selector.show_add_tag_button == show_add_tag_button,
            !selector.show_new_tag_input,
            selector.new_tag_name@.len() == 0,
            selector.colorized == colorized,
    {
        TagSelector {
            selected: Vec::new(),
            available,
            show_add_tag_button,
            show_new_tag_input: false,
            new_tag_name: String::new(),
            colorized,
        }
    }

    /// The tags that are selected.
    pub fn selected_tags(&self) -> (tags: &Vec<TagDTO>)
        ensures
            *tags == self.selected,
    {
        &self.selected
    }

    /// Selects a tag that is not selected, and the other way round.
    pub fn toggle(&mut self, tag: TagDTO)
        ensures
            tag_views(final(self).selected@) == spec_toggled(tag_views(old(self).selected@), tag@),
            crate::seqs::distinct(tag_views(old(self).selected@)) ==> crate::seqs::distinct(
                tag_views(final(self).selected@),
            ),
            final(self).available == old(self).available,
            final(self).show_add_tag_button == old(self).show_add_tag_button,
            final(self).show_new_tag_input == old(self).show_new_tag_input,
            final(self).new_tag_name == old(self).new_tag_name,
            final(self).colorized == old(self).colorized,
    {
        let ghost before = tag_views(self.selected@);
        let mut kept: Vec<TagDTO> = Vec::new();
        let mut found = false;
        let mut i: usize = 0;
        assert(tag_views(kept@) =~= spec_keep(before.take(0), other_than(tag@)));
        while i < self.selected.len()
            invariant
                i <= self.selected.len(),
                before == tag_views(self.selected@),
                *self == *old(self),
                tag_views(kept@) == spec_keep(before.take(i as int), other_than(tag@)),
                found == before.take(i as int).contains(tag@),
            decreases self.selected.len() - i,
        {
            assert(before.take(i + 1).drop_last() =~= before.take(i as int));
            assert(before.take(i + 1).last() == self.selected@[i as int]@);
            proof {
                crate::seqs::lemma_push_contains(
                    before.take(i as int),
                    self.selected@[i as int]@,
                    tag@,
                );
                assert(before.take(i + 1) =~= before.take(i as int).push(
                    self.selected@[i as int]@,
                ));
            }
            if same_tag(&self.selected[i], &tag) {
                found = true;
            } else {
                let ghost held = kept@;
                kept.push(self.selected[i].duplicate());
                assert(tag_views(kept@) =~= tag_views(held).push(self.selected@[i as int]@));
            }
            i += 1;
        }
        assert(before.take(self.selected.len() as int) =~= before);
        proof {
            if crate::seqs::distinct(before) {
                crate::seqs::lemma_keep_plain_distinct(before, other_than(tag@));
                if !before.contains(tag@) {
                    crate::seqs::lemma_push_distinct(before, tag@);
                }
            }
        }
        if found {
            self.selected = kept;
        } else {
            self.selected.push(tag);
            assert(tag_views(self.selected@) =~= before.push(tag@));
        }
    }

    /// Takes a message.
    ///
    /// A click on a tag toggles it. The button for a new tag opens the field
    /// for its name; confirming or giving up closes and empties the field,
    /// and confirming asks for the tag to be made. Once it is made, the tags
    /// that there are now replace the old ones.
    pub fn update(&mut self, message: Message) -> (action: Action)
        ensures
            final(self).show_add_tag_button == old(self).show_add_tag_button,
            final(self).colorized == old(self).colorized,
            match message {
                Message::ToggleTag(tag) => {
                    &&& action == Action::Idle
                    &&& tag_views(final(self).selected@) == spec_toggled(
                        tag_views(old(self).selected@),
                        tag@,
                    )
                    &&& final(self).available == old(self).available
                    &&& final(self).show_new_tag_input == old(self).show_new_tag_input
                    &&& final(self).new_tag_name == old(self).new_tag_name
                },
                Message::CreateNewTagPressed => {
                    &&& action == Action::Idle
                    &&& final(self).show_new_tag_input
                    &&& final(self).selected == old(self).selected
                    &&& final(self).available == old(self).available
                    &&& final(self).new_tag_name == old(self).new_tag_name
                },
                Message::NewTagNameChanged(name) => {
                    &&& action == Action::Idle
                    &&& final(self).new_tag_name == name
                    &&& final(self).selected == old(self).selected
                    &&& final(self).available == old(self).available
                    &&& final(self).show_new_tag_input == old(self).show_new_tag_input
                },
                Message::CreateNewTag(name) => {
                    &&& action == Action::CreateTag(name)
                    &&& !final(self).show_new_tag_input
                    &&& final(self).new_tag_name@.len() == 0
                    &&& final(self).selected == old(self).selected
                    &&& final(self).available == old(self).available
                },
                Message::CancelNewTag => {
                    &&& action == Action::Idle
                    &&& !final(self).show_new_tag_input
                    &&& final(self).new_tag_name@.len() == 0
                    &&& final(self).selected == old(self).selected
                    &&& final(self).available == old(self).available
                },
                Message::TagCreateResult(outcome) => {
                    &&& final(self).selected == old(self).selected
                    &&& final(self).show_new_tag_input == old(self).show_new_tag_input
                    &&& final(self).new_tag_name == old(self).new_tag_name
                    &&& match outcome {
                        Ok(tags) => action == Action::Created && final(self).available == tags,
                        Err(_) => action == Action::Failed && final(self).available == old(
                            self,
                        ).available,
                    }
                },
            },
    {
        match message {
            Message::ToggleTag(tag) => {
                self.toggle(tag);
                Action::Idle
            },
            Message::CreateNewTagPressed => {
                self.show_new_tag_input = true;
                Action::Idle
            },
            Message::NewTagNameChanged(name) => {
                self.new_tag_name = name;
                Action::Idle
            },
            Message::CreateNewTag(name) => {
                self.show_new_tag_input = false;
                self.new_tag_name = String::new();
                Action::CreateTag(name)
            },
            Message::CancelNewTag => {
                self.show_new_tag_input = false;
                self.new_tag_name = String::new();
                Action::Idle
            },
            Message::TagCreateResult(outcome) => match outcome {
                Ok(tags) => {
                    self.available = tags;
                    Action::Created
                },
                Err(_) => Action::Failed,
            },
        }
    }
}

} // verus!
