use vstd::prelude::*;

verus! {

/// The file formats an original image is kept in.
#[derive(Clone, Copy, Debug, PartialEq, Eq, Structural)]
pub enum ImageFormat {
    Jpeg,
    Png,
    Gif,
    WebP,
    Bmp,
    Tiff,
}

impl ImageFormat {
    /// The file extension of the format, without a dot.
    pub open spec fn spec_extension(self) -> Seq<char> {
        match self {
            ImageFormat::Jpeg => "jpg"@,
            ImageFormat::Png => "png"@,
            ImageFormat::Gif => "gif"@,
            ImageFormat::WebP => "webp"@,
            ImageFormat::Bmp => "bmp"@,
            ImageFormat::Tiff => "tiff"@,
        }
    }

    /// The format that a media type names; PNG for any other text and where
    /// there is none.
    pub open spec fn spec_from_mime(mime: Option<Seq<char>>) -> ImageFormat {
        match mime {
            None => ImageFormat::Png,
            Some(m) => if m == "image/jpeg"@ {
                ImageFormat::Jpeg
            } else if m == "image/gif"@ {
                ImageFormat::Gif
            } else if m == "image/webp"@ {
                ImageFormat::WebP
            } else if m == "image/bmp"@ {
                ImageFormat::Bmp
            } else if m == "image/tiff"@ {
                ImageFormat::Tiff
            } else {
                ImageFormat::Png
            },
        }
    }

    /// The formats a decoder is forced to, in the order in which they are tried.
    pub open spec fn spec_known() -> Seq<ImageFormat> {
        seq![
            ImageFormat::Jpeg,
            ImageFormat::Png,
            ImageFormat::Gif,
            ImageFormat::WebP,
            ImageFormat::Tiff,
            ImageFormat::Bmp,
        ]
    }

    /// The formats a decoder is forced to, in the order in which they are tried.
    pub fn known() -> (formats: Vec<ImageFormat>)
        ensures
            formats@ == Self::spec_known(),
    {
        let mut formats: Vec<ImageFormat> = Vec::new();
        formats.push(ImageFormat::Jpeg);
        formats.push(ImageFormat::Png);
        formats.push(ImageFormat::Gif);
        formats.push(ImageFormat::WebP);
        formats.push(ImageFormat::Tiff);
        formats.push(ImageFormat::Bmp);
        assert(formats@ =~= Self::spec_known());
        formats
    }
}

} // verus!
