use vstd::prelude::*;

verus! {

/// What a deletion request refers to.
#[derive(Clone, Copy, Debug, PartialEq, Eq, Structural)]
pub enum ImageType {
    /// A catalog entry whose path is a directory of several originals.
    Folder,
    /// A catalog entry that is a single image file.
    Image,
    /// One file shown from inside an expanded folder entry.
    FromFolder,
}

impl ImageType {
    /// The kind that `s` names; any other text names a single image.
    pub open spec fn spec_from_str(s: Seq<char>) -> ImageType {
        if s == "folder"@ {
            ImageType::Folder
        } else if s == "from_folder"@ {
            ImageType::FromFolder
        } else {
            ImageType::Image
        }
    }

    /// The text that names this kind.
    pub open spec fn spec_as_str(self) -> Seq<char> {
        match self {
            ImageType::Folder => "folder"@,
            ImageType::Image => "image"@,
            ImageType::FromFolder => "from_folder"@,
        }
    }

    /// Reads a kind from its name; any other text gives `Image`.
    pub fn from_str(s: &str) -> (kind: ImageType)
        ensures
            kind == Self::spec_from_str(s@),
    {
        if crate::text::same_text(s, "folder") {
            ImageType::Folder
        } else if crate::text::same_text(s, "from_folder") {
            ImageType::FromFolder
        } else {
            ImageType::Image
        }
    }

    /// The name of this kind.
    pub fn as_str(&self) -> (name: &'static str)
        ensures
            name@ == self.spec_as_str(),
    {
        match self {
            ImageType::Folder => "folder",
            ImageType::Image => "image",
            ImageType::FromFolder => "from_folder",
        }
    }

    /// The name of this kind, as an owned string.
    pub fn to_string(&self) -> (name: String)
        ensures
            name@ == self.spec_as_str(),
    {
        self.as_str().to_owned()
    }
}

/// Reading back the name of a kind gives that kind.
pub proof fn lemma_image_type_round_trip(kind: ImageType)
    ensures
        ImageType::spec_from_str(kind.spec_as_str()) == kind,
{
    reveal_strlit("folder");
    reveal_strlit("image");
    reveal_strlit("from_folder");
    match kind {
        ImageType::Folder => {},
        ImageType::Image => {
            assert("image"@.len() != "folder"@.len());
            assert("image"@.len() != "from_folder"@.len());
        },
        ImageType::FromFolder => {
            assert("from_folder"@.len() != "folder"@.len());
        },
    }
}

} // verus!
