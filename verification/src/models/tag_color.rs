use vstd::prelude::*;

verus! {

/// The fixed palette a tag is shown in. It carries no meaning for queries.
#[derive(Clone, Copy, Debug, PartialEq, Eq, Structural, Hash)]
pub enum TagColor {
    Red,
    Green,
    Blue,
    Orange,
    Purple,
    Pink,
    Indigo,
    Teal,
    Gray,
}

impl Default for TagColor {
    fn default() -> (color: TagColor)
        ensures
            color == TagColor::Blue,
    {
        TagColor::Blue
    }
}

impl TagColor {
    /// The lower-case name of the colour.
    pub open spec fn spec_as_str(self) -> Seq<char> {
        match self {
            TagColor::Red => "red"@,
            TagColor::Green => "green"@,
            TagColor::Blue => "blue"@,
            TagColor::Orange => "orange"@,
            TagColor::Purple => "purple"@,
            TagColor::Pink => "pink"@,
            TagColor::Indigo => "indigo"@,
            TagColor::Teal => "teal"@,
            TagColor::Gray => "gray"@,
        }
    }

    /// The colour whose name is `s`, where `s` is already in lower case.
    pub open spec fn spec_from_lower(s: Seq<char>) -> Option<TagColor> {
        if s == "red"@ {
            Some(TagColor::Red)
        } else if s == "green"@ {
            Some(TagColor::Green)
        } else if s == "blue"@ {
            Some(TagColor::Blue)
        } else if s == "orange"@ {
            Some(TagColor::Orange)
        } else if s == "purple"@ {
            Some(TagColor::Purple)
        } else if s == "pink"@ {
            Some(TagColor::Pink)
        } else if s == "indigo"@ {
            Some(TagColor::Indigo)
        } else if s == "teal"@ {
            Some(TagColor::Teal)
        } else if s == "gray"@ {
            Some(TagColor::Gray)
        } else {
            None
        }
    }

    /// The palette, in its fixed order.
    pub open spec fn spec_all() -> Seq<TagColor> {
        seq![
            TagColor::Red,
            TagColor::Green,
            TagColor::Blue,
            TagColor::Orange,
            TagColor::Purple,
            TagColor::Pink,
            TagColor::Indigo,
            TagColor::Teal,
            TagColor::Gray,
        ]
    }

    /// The red, green and blue of the colour on screen, in hundredths of
    /// the full strength.
    pub open spec fn spec_shade(self) -> (u8, u8, u8) {
        match self {
            TagColor::Red => (90u8, 20u8, 20u8),
            TagColor::Green => (20u8, 70u8, 30u8),
            TagColor::Blue => (20u8, 50u8, 90u8),
            TagColor::Orange => (90u8, 50u8, 10u8),
            TagColor::Purple => (60u8, 20u8, 80u8),
            TagColor::Pink => (90u8, 40u8, 70u8),
            TagColor::Indigo => (30u8, 20u8, 70u8),
            TagColor::Teal => (20u8, 70u8, 70u8),
            TagColor::Gray => (50u8, 50u8, 50u8),
        }
    }

    /// The red, green and blue of the colour on screen, in hundredths of
    /// the full strength.
    pub fn shade(&self) -> (rgb: (u8, u8, u8))
        ensures
            rgb == self.spec_shade(),
            rgb.0 <= 100 && rgb.1 <= 100 && rgb.2 <= 100,
    {
        match self {
            TagColor::Red => (90, 20, 20),
            TagColor::Green => (20, 70, 30),
            TagColor::Blue => (20, 50, 90),
            TagColor::Orange => (90, 50, 10),
            TagColor::Purple => (60, 20, 80),
            TagColor::Pink => (90, 40, 70),
            TagColor::Indigo => (30, 20, 70),
            TagColor::Teal => (20, 70, 70),
            TagColor::Gray => (50, 50, 50),
        }
    }

    /// The lower-case name of the colour.
    pub fn as_str(&self) -> (name: &'static str)
        ensures
            name@ == self.spec_as_str(),
    {
        match self {
            TagColor::Red => "red",
            TagColor::Green => "green",
            TagColor::Blue => "blue",
            TagColor::Orange => "orange",
            TagColor::Purple => "purple",
            TagColor::Pink => "pink",
            TagColor::Indigo => "indigo",
            TagColor::Teal => "teal",
            TagColor::Gray => "gray",
        }
    }

    /// Reads a colour from its name, in any letter case.
    pub fn from_str(s: &str) -> (color: Option<TagColor>)
        ensures
            color == Self::spec_from_lower(crate::text::spec_lowercase(s@)),
    {
        let lower = crate::text::lowercase(s);
        let l = lower.as_str();
        if crate::text::same_text(l, "red") {
            Some(TagColor::Red)
        } else if crate::text::same_text(l, "green") {
            Some(TagColor::Green)
        } else if crate::text::same_text(l, "blue") {
            Some(TagColor::Blue)
        } else if crate::text::same_text(l, "orange") {
            Some(TagColor::Orange)
        } else if crate::text::same_text(l, "purple") {
            Some(TagColor::Purple)
        } else if crate::text::same_text(l, "pink") {
            Some(TagColor::Pink)
        } else if crate::text::same_text(l, "indigo") {
            Some(TagColor::Indigo)
        } else if crate::text::same_text(l, "teal") {
            Some(TagColor::Teal)
        } else if crate::text::same_text(l, "gray") {
            Some(TagColor::Gray)
        } else {
            None
        }
    }

    /// Every colour of the palette, once, in its fixed order.
    pub fn all() -> (colors: Vec<TagColor>)
        ensures
            colors@ == Self::spec_all(),
    {
        let mut colors: Vec<TagColor> = Vec::new();
        colors.push(TagColor::Red);
        colors.push(TagColor::Green);
        colors.push(TagColor::Blue);
        colors.push(TagColor::Orange);
        colors.push(TagColor::Purple);
        colors.push(TagColor::Pink);
        colors.push(TagColor::Indigo);
        colors.push(TagColor::Teal);
        colors.push(TagColor::Gray);
        assert(colors@ =~= Self::spec_all());
        colors
    }
}

/// Every colour occurs in the palette.
pub proof fn lemma_palette_complete(color: TagColor)
    ensures
        TagColor::spec_all().contains(color),
{
    let all = TagColor::spec_all();
    match color {
        TagColor::Red => assert(all[0] == color),
        TagColor::Green => assert(all[1] == color),
        TagColor::Blue => assert(all[2] == color),
        TagColor::Orange => assert(all[3] == color),
        TagColor::Purple => assert(all[4] == color),
        TagColor::Pink => assert(all[5] == color),
        TagColor::Indigo => assert(all[6] == color),
        TagColor::Teal => assert(all[7] == color),
        TagColor::Gray => assert(all[8] == color),
    }
}

} // verus!
