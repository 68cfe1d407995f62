//! Corrections for content types whose usual extensions the media-type tables
//! do not list.

use vstd::prelude::*;

verus! {

/// The corrections, in the order in which they are tried. A pair
/// `(listed, real)` says: where the tables list `listed` for a file's content,
/// a file named with `real` is named correctly as well.
pub open spec fn workaround_rules() -> Seq<(Seq<char>, Seq<char>)> {
    seq![
        ("exe"@, "acm"@),
        ("exe"@, "ax"@),
        ("exe"@, "bck"@),
        ("exe"@, "com"@),
        ("exe"@, "cpl"@),
        ("exe"@, "cpl"@),
        ("exe"@, "dll"@),
        ("exe"@, "dll16"@),
        ("exe"@, "drv"@),
        ("exe"@, "drv16"@),
        ("exe"@, "ds"@),
        ("exe"@, "exe16"@),
        ("exe"@, "fon"@),
        ("exe"@, "msstyles"@),
        ("exe"@, "orig"@),
        ("exe"@, "sys"@),
        ("exe"@, "tlb"@),
        ("exe"@, "vxd"@),
        ("exe"@, "doc"@),
        ("exe"@, "sys"@),
        ("gz"@, "blend"@),
        ("gz"@, "crate"@),
        ("gz"@, "svgz"@),
        ("gz"@, "tgz"@),
        ("html"@, "md"@),
        ("html"@, "svg"@),
        ("jpg"@, "jfif"@),
        ("obj"@, "o"@),
        ("odp"@, "otp"@),
        ("odt"@, "ott"@),
        ("ogg"@, "ogv"@),
        ("pptx"@, "ppsx"@),
        ("sh"@, "bash"@),
        ("sh"@, "py"@),
        ("sh"@, "rs"@),
        ("xml"@, "cmb"@),
        ("xml"@, "conf"@),
        ("xml"@, "dae"@),
        ("xml"@, "docbook"@),
        ("xml"@, "gir"@),
        ("xml"@, "glade"@),
        ("xml"@, "html"@),
        ("xml"@, "kdenlive"@),
        ("xml"@, "lang"@),
        ("xml"@, "svg"@),
        ("xml"@, "ui"@),
        ("xml"@, "vcproj"@),
        ("zip"@, "apk"@),
        ("zip"@, "dat"@),
        ("zip"@, "jar"@),
        ("zip"@, "kra"@),
        ("zip"@, "nupkg"@),
        ("zip"@, "pptx"@),
        ("zip"@, "whl"@),
        ("zip"@, "xpi"@),
    ]
}

/// The table of [`workaround_rules`].
pub fn workarounds() -> (rules: Vec<(&'static str, &'static str)>)
    ensures
        rules.deep_view() == workaround_rules(),
{
    let rules = vec![
        ("exe", "acm"),
        ("exe", "ax"),
        ("exe", "bck"),
        ("exe", "com"),
        ("exe", "cpl"),
        ("exe", "cpl"),
        ("exe", "dll"),
        ("exe", "dll16"),
        ("exe", "drv"),
        ("exe", "drv16"),
        ("exe", "ds"),
        ("exe", "exe16"),
        ("exe", "fon"),
        ("exe", "msstyles"),
        ("exe", "orig"),
        ("exe", "sys"),
        ("exe", "tlb"),
        ("exe", "vxd"),
        ("exe", "doc"),
        ("exe", "sys"),
        ("gz", "blend"),
        ("gz", "crate"),
        ("gz", "svgz"),
        ("gz", "tgz"),
        ("html", "md"),
        ("html", "svg"),
        ("jpg", "jfif"),
        ("obj", "o"),
        ("odp", "otp"),
        ("odt", "ott"),
        ("ogg", "ogv"),
        ("pptx", "ppsx"),
        ("sh", "bash"),
        ("sh", "py"),
        ("sh", "rs"),
        ("xml", "cmb"),
        ("xml", "conf"),
        ("xml", "dae"),
        ("xml", "docbook"),
        ("xml", "gir"),
        ("xml", "glade"),
        ("xml", "html"),
        ("xml", "kdenlive"),
        ("xml", "lang"),
        ("xml", "svg"),
        ("xml", "ui"),
        ("xml", "vcproj"),
        ("zip", "apk"),
        ("zip", "dat"),
        ("zip", "jar"),
        ("zip", "kra"),
        ("zip", "nupkg"),
        ("zip", "pptx"),
        ("zip", "whl"),
        ("zip", "xpi"),
    ];
    assert(rules.deep_view() =~= workaround_rules());
    rules
}

/// Every correction names a real extension: none is for files without one.
pub proof fn lemma_real_extensions_not_empty()
    ensures
        forall|k: int|
            0 <= k < workaround_rules().len() ==> (#[trigger] workaround_rules()[k]).1.len() > 0,
{
    reveal_strlit("acm");
    reveal_strlit("ax");
    reveal_strlit("bck");
    reveal_strlit("com");
    reveal_strlit("cpl");
    reveal_strlit("dll");
    reveal_strlit("dll16");
    reveal_strlit("drv");
    reveal_strlit("drv16");
    reveal_strlit("ds");
    reveal_strlit("exe16");
    reveal_strlit("fon");
    reveal_strlit("msstyles");
    reveal_strlit("orig");
    reveal_strlit("sys");
    reveal_strlit("tlb");
    reveal_strlit("vxd");
    reveal_strlit("doc");
    reveal_strlit("blend");
    reveal_strlit("crate");
    reveal_strlit("svgz");
    reveal_strlit("tgz");
    reveal_strlit("md");
    reveal_strlit("svg");
    reveal_strlit("jfif");
    reveal_strlit("o");
    reveal_strlit("otp");
    reveal_strlit("ott");
    reveal_strlit("ogv");
    reveal_strlit("ppsx");
    reveal_strlit("bash");
    reveal_strlit("py");
    reveal_strlit("rs");
    reveal_strlit("cmb");
    reveal_strlit("conf");
    reveal_strlit("dae");
    reveal_strlit("docbook");
    reveal_strlit("gir");
    reveal_strlit("glade");
    reveal_strlit("html");
    reveal_strlit("kdenlive");
    reveal_strlit("lang");
    reveal_strlit("ui");
    reveal_strlit("vcproj");
    reveal_strlit("apk");
    reveal_strlit("dat");
    reveal_strlit("jar");
    reveal_strlit("kra");
    reveal_strlit("nupkg");
    reveal_strlit("pptx");
    reveal_strlit("whl");
    reveal_strlit("xpi");
}

} // verus!
