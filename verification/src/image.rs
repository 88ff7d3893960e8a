//! The invocations of the image tool that make and convert disk images.

use crate::storage::{image_name, join, joined, qemu_img_name};
use crate::text::{decimal, push_decimal, push_text, texts};
use vstd::prelude::*;
use vstd::string::*;

verus! {

/// The image tool.
pub const QEMU_IMG_PATH: &'static str = "qemu-img";

/// The format, and the suffix, of the images that the tool makes here.
pub const QEMU_IMG_DEFAULT_FORMAT: &'static str = "qcow2";

/// Makes images in one format.
#[derive(Debug, Clone)]
pub struct QEmuImageHandler {
    format: String,
}

impl Default for QEmuImageHandler {
    fn default() -> (out: Self)
        ensures
            out.format() == "qcow2"@,
    {
        Self { format: String::from_str(QEMU_IMG_DEFAULT_FORMAT) }
    }
}

impl QEmuImageHandler {
    /// The format of the images.
    pub closed spec fn format(&self) -> Seq<char> {
        self.format@
    }

    /// The image file that is made in `target` at `secs` seconds after the epoch.
    pub fn image_path(&self, target: &str, secs: u64) -> (path: String)
        ensures
            path@ == joined(target@, image_name(secs as nat)),
    {
        let name = qemu_img_name(secs);
        join(target, name.as_str())
    }

    /// The arguments with which the tool makes the image `filename` of
    /// `gbs` gigabytes.
    pub fn create_args(&self, filename: &str, gbs: u64) -> (out: Vec<String>)
        ensures
            texts(out@) == seq![
                "create"@,
                "-f"@,
                self.format(),
                filename@,
                decimal(gbs as nat) + "G"@,
            ],
    {
        let mut v: Vec<String> = Vec::new();
        assert(texts(v@) =~= Seq::<Seq<char>>::empty());
        push_text(&mut v, String::from_str("create"));
        push_text(&mut v, String::from_str("-f"));
        push_text(&mut v, self.format.clone());
        push_text(&mut v, String::from_str(filename));
        let mut size = String::new();
        push_decimal(&mut size, gbs);
        size.append("G");
        assert(size@ == decimal(gbs as nat) + "G"@) by {
            assert(Seq::<char>::empty() + decimal(gbs as nat) == decimal(gbs as nat));
        }
        push_text(&mut v, size);
        assert(texts(v@) =~= seq![
            "create"@,
            "-f"@,
            self.format(),
            filename@,
            decimal(gbs as nat) + "G"@,
        ]);
        v
    }

    /// The arguments with which the tool converts `orig_file`, an image in
    /// the format `format`, into `new_file`.
    pub fn import_args(&self, new_file: &str, orig_file: &str, format: &str) -> (out: Vec<String>)
        ensures
            texts(out@) == seq![
                "convert"@,
                "-f"@,
                format@,
                "-O"@,
                self.format(),
                orig_file@,
                new_file@,
            ],
    {
        let mut v: Vec<String> = Vec::new();
        assert(texts(v@) =~= Seq::<Seq<char>>::empty());
        push_text(&mut v, String::from_str("convert"));
        push_text(&mut v, String::from_str("-f"));
        push_text(&mut v, String::from_str(format));
        push_text(&mut v, String::from_str("-O"));
        push_text(&mut v, self.format.clone());
        push_text(&mut v, String::from_str(orig_file));
        push_text(&mut v, String::from_str(new_file));
        assert(texts(v@) =~= seq![
            "convert"@,
            "-f"@,
            format@,
            "-O"@,
            self.format(),
            orig_file@,
            new_file@,
        ]);
        v
    }
}

} // verus!
