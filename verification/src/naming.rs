//! The name proposed for a new disk image.
use vstd::prelude::*;
use vstd::string::StringExecFns;
use crate::device::{c_string_text, device_path_from_bytes};
use crate::text::{
    lemma_replace_first_after_plain_prefix, first_occurrence, replace_char, replace_char_spec, replace_first, replace_first_spec, same_text,
};

verus! {

/// The placeholder that message templates hold for each argument: `{}`.
pub open spec fn placeholder() -> Seq<char> {
    seq!['{', '}']
}

/// `template` with its placeholders filled by `args`, one after the other:
/// each argument replaces the leftmost placeholder of the text as it stands
/// after the previous ones were put in.
pub open spec fn fill_spec(template: Seq<char>, args: Seq<Seq<char>>) -> Seq<char>
    decreases args.len(),
{
    if args.len() == 0 {
        template
    } else {
        fill_spec(replace_first_spec(template, placeholder(), args[0]), args.drop_first())
    }
}

/// The texts of `args`.
pub open spec fn texts(args: Seq<String>) -> Seq<Seq<char>> {
    args.map_values(|a: String| a@)
}

/// `template` (a translated message) with its `{}` placeholders filled by
/// `args` in order; placeholders beyond the arguments stay as they are.
pub fn fill_placeholders(template: &str, args: &Vec<String>) -> (r: String)
    ensures
        r@ == fill_spec(template@, texts(args@)),
{
    let ghost all = texts(args@);
    let mut cur = String::from_str(template);
    let mut i: usize = 0;
    assert(all.skip(0) == all);
    while i < args.len()
        invariant
            i <= args.len(),
            all == texts(args@),
            fill_spec(template@, all) == fill_spec(cur@, all.skip(i as int)),
        decreases args.len() - i,
    {
        let next = replace_first(cur.as_str(), "{}", args[i].as_str());
        proof {
            let rest = all.skip(i as int);
            assert(rest[0] == args@[i as int]@);
            assert(rest.drop_first() == all.skip(i + 1));
            reveal_strlit("{}");
            assert("{}"@ =~= placeholder());
            assert(fill_spec(cur@, rest) == fill_spec(
                replace_first_spec(cur@, placeholder(), rest[0]),
                rest.drop_first(),
            ));
        }
        cur = next;
        i = i + 1;
    }
    cur
}

/// The file name part that stands for a device: its path without the
/// leading `/dev/`, with every `/` turned into `_`.
pub open spec fn device_stem_spec(path: Seq<char>) -> Seq<char> {
    replace_char_spec(replace_first_spec(path, "/dev/"@, Seq::empty()), '/', '_')
}

/// The file name part that stands for the device at `path`, such as `sdb`
/// for `/dev/sdb` and `mapper_root` for `/dev/mapper/root`.
pub fn device_stem(path: &str) -> (r: String)
    ensures
        r@ == device_stem_spec(path@),
{
    proof {
        reveal_strlit("");
    }
    let without_dir = replace_first(path, "/dev/", "");
    replace_char(without_dir.as_str(), '/', '_')
}

/// A template without placeholders is left as it is, whatever the arguments.
pub proof fn lemma_fill_without_placeholder(template: Seq<char>, args: Seq<Seq<char>>)
    requires
        first_occurrence(template, placeholder()) is None,
    ensures
        fill_spec(template, args) == template,
    decreases args.len(),
{
    if args.len() > 0 {
        assert(replace_first_spec(template, placeholder(), args[0]) == template);
        lemma_fill_without_placeholder(template, args.drop_first());
    }
}

/// The part of a file name that stands for a device holds no `/`: it names
/// a file in the chosen folder, never one in a folder below it.
pub proof fn lemma_device_stem_has_no_slash(path: Seq<char>)
    ensures
        forall|i: int| 0 <= i < device_stem_spec(path).len() ==> #[trigger] device_stem_spec(path)[i] != '/',
{
}

/// No character of `s` opens a placeholder.
pub open spec fn has_no_brace(s: Seq<char>) -> bool {
    forall|k: int| 0 <= k < s.len() ==> s[k] != '{'
}

/// An argument goes into a template whole, in place of its placeholder:
/// filling `p{}q`, where `p` opens no placeholder, with one text `a` gives
/// `p`, all of `a`, then `q`.
pub proof fn lemma_fill_one_argument(p: Seq<char>, q: Seq<char>, a: Seq<char>)
    requires
        has_no_brace(p),
    ensures
        fill_spec(p + placeholder() + q, seq![a]) == p + a + q,
{
    let t = p + placeholder() + q;
    lemma_replace_first_after_plain_prefix(p, placeholder(), q, a);
    assert(seq![a].drop_first() =~= Seq::<Seq<char>>::empty());
    assert(fill_spec(t, seq![a]) == fill_spec(replace_first_spec(t, placeholder(), a), seq![a].drop_first()));
    assert(fill_spec(p + a + q, Seq::<Seq<char>>::empty()) == p + a + q);
}

/// Two arguments go into a template whole and in order: filling `p{}m{}q`
/// with `a` and `b`, where `p`, `m` and `a` open no placeholder, gives
/// `p`, `a`, `m`, `b`, then `q`; so the default name of a device is
/// "Disk Image of <stem> (<timestamp>).img" with the whole stem and timestamp.
pub proof fn lemma_fill_two_arguments(p: Seq<char>, m: Seq<char>, q: Seq<char>, a: Seq<char>, b: Seq<char>)
    requires
        has_no_brace(p),
        has_no_brace(m),
        has_no_brace(a),
    ensures
        fill_spec(p + placeholder() + m + placeholder() + q, seq![a, b]) == p + a + m + b + q,
{
    let rest = m + placeholder() + q;
    assert(p + placeholder() + m + placeholder() + q =~= p + placeholder() + rest);
    lemma_replace_first_after_plain_prefix(p, placeholder(), rest, a);
    let pam = p + a + m;
    assert(has_no_brace(pam)) by {
        assert forall|k: int| 0 <= k < pam.len() implies pam[k] != '{' by {
            if k < p.len() {
                assert(pam[k] == p[k]);
            } else if k < p.len() + a.len() {
                assert(pam[k] == a[k - p.len()]);
            } else {
                assert(pam[k] == m[k - p.len() - a.len()]);
            }
        }
    }
    assert(p + a + rest =~= pam + placeholder() + q);
    lemma_replace_first_after_plain_prefix(pam, placeholder(), q, b);
    assert(seq![a, b].drop_first() =~= seq![b]);
    assert(seq![b].drop_first() =~= Seq::<Seq<char>>::empty());
    assert(pam + b + q =~= p + a + m + b + q);
    let t = p + placeholder() + m + placeholder() + q;
    assert(seq![a, b][0] == a);
    assert(fill_spec(t, seq![a, b]) == fill_spec(replace_first_spec(t, placeholder(), a), seq![b]));
    assert(replace_first_spec(t, placeholder(), a) == pam + placeholder() + q);
    assert(fill_spec(pam + placeholder() + q, seq![b]) == fill_spec(
        replace_first_spec(pam + placeholder() + q, placeholder(), b),
        Seq::<Seq<char>>::empty(),
    ));
}

/// Only disc file systems get an ISO name: for any other file system type
/// there is none, whatever the label.
pub proof fn lemma_iso_name_only_for_discs(fs_type: Seq<char>, fs_label: Seq<char>)
    ensures
        iso_name_spec(fs_type, fs_label) is Some ==> (fs_type == "iso9660"@ || fs_type == "udf"@) && fs_label.len() > 0,
        (fs_type == "iso9660"@ || fs_type == "udf"@) && fs_label.len() > 0 ==> iso_name_spec(fs_type, fs_label)
            == Some(fs_label + ".iso"@),
{
}

/// A labelled ISO 9660 or UDF file system is named `<label>.iso`, whatever
/// the device (optical drive or not), the timestamp and the template, as
/// long as the device path can be read.
pub proof fn lemma_disc_image_named_after_label(
    device_bytes: Seq<u8>,
    fs_type: Seq<char>,
    fs_label: Seq<char>,
    timestamp: Option<Seq<char>>,
    template: Seq<char>,
)
    requires
        c_string_text(device_bytes) is Some,
        fs_type == "iso9660"@ || fs_type == "udf"@,
        fs_label.len() > 0,
    ensures
        default_name_spec(device_bytes, fs_type, fs_label, timestamp, template) == Some(fs_label + ".iso"@),
{
}

/// Any other file system, labelled or not, is named from the template; so
/// without a timestamp there is no name, and with one the name is the
/// template with the device's stem and the timestamp put in.
pub proof fn lemma_other_fs_named_from_template(
    device_bytes: Seq<u8>,
    fs_type: Seq<char>,
    fs_label: Seq<char>,
    timestamp: Option<Seq<char>>,
    template: Seq<char>,
)
    requires
        c_string_text(device_bytes) is Some,
        fs_type != "iso9660"@,
        fs_type != "udf"@,
    ensures
        timestamp is None ==> default_name_spec(device_bytes, fs_type, fs_label, timestamp, template) is None,
        timestamp matches Some(t) ==> default_name_spec(device_bytes, fs_type, fs_label, timestamp, template)
            == Some(fill_spec(template, seq![device_stem_spec(c_string_text(device_bytes).unwrap()), t])),
{
}

/// An unlabelled file system is named from the template too, even a disc one.
pub proof fn lemma_unlabelled_named_from_template(
    device_bytes: Seq<u8>,
    fs_type: Seq<char>,
    timestamp: Option<Seq<char>>,
    template: Seq<char>,
)
    requires
        c_string_text(device_bytes) is Some,
    ensures
        timestamp is None ==> default_name_spec(device_bytes, fs_type, Seq::empty(), timestamp, template) is None,
        timestamp matches Some(t) ==> default_name_spec(device_bytes, fs_type, Seq::empty(), timestamp, template)
            == Some(fill_spec(template, seq![device_stem_spec(c_string_text(device_bytes).unwrap()), t])),
{
}

/// The stem of `/dev/<x>` is `x` with each `/` turned into `_`, character
/// for character: nothing is dropped, added or moved.
pub proof fn lemma_device_stem_of_dev_path(x: Seq<char>)
    ensures
        device_stem_spec("/dev/"@ + x).len() == x.len(),
        forall|i: int|
            0 <= i < x.len() ==> #[trigger] device_stem_spec("/dev/"@ + x)[i] == (if x[i] == '/' {
                '_'
            } else {
                x[i]
            }),
{
    reveal_strlit("/dev/");
    let e = Seq::<char>::empty();
    lemma_replace_first_after_plain_prefix(e, "/dev/"@, x, e);
    assert(e + "/dev/"@ + x =~= "/dev/"@ + x);
    assert(e + e + x =~= x);
}

/// The file system types of optical disc images.
pub open spec fn is_disc_fs(fs_type: Seq<char>) -> bool {
    fs_type == "iso9660"@ || fs_type == "udf"@
}

/// The name of an ISO image of a labelled optical disc file system:
/// `<label>.iso`.
pub open spec fn iso_name_spec(fs_type: Seq<char>, fs_label: Seq<char>) -> Option<Seq<char>> {
    if is_disc_fs(fs_type) && fs_label.len() > 0 {
        Some(fs_label + ".iso"@)
    } else {
        None
    }
}

/// `<label>.iso` for a labelled ISO 9660 or UDF file system, `None` otherwise.
pub fn iso_image_name(fs_type: &str, fs_label: &str) -> (r: Option<String>)
    ensures
        match iso_name_spec(fs_type@, fs_label@) {
            Some(n) => r matches Some(s) && s@ == n,
            None => r is None,
        },
{
    let disc = same_text(fs_type, "iso9660") || same_text(fs_type, "udf");
    if disc && !fs_label.is_empty() {
        let mut name = String::from_str(fs_label);
        name.append(".iso");
        Some(name)
    } else {
        None
    }
}

/// The text of an optional string.
pub open spec fn optional_text(s: Option<&str>) -> Option<Seq<char>> {
    match s {
        Some(t) => Some(t@),
        None => None,
    }
}

/// The name proposed for an image of the device whose path is held in
/// `device_bytes`: `<label>.iso` for a labelled disc file system, otherwise
/// `template` (the translated "Disk Image of {} ({}).img") filled with the
/// device's stem and `timestamp`. `None` when the device path cannot be read,
/// or when a timestamp is needed and there is none.
pub open spec fn default_name_spec(
    device_bytes: Seq<u8>,
    fs_type: Seq<char>,
    fs_label: Seq<char>,
    timestamp: Option<Seq<char>>,
    template: Seq<char>,
) -> Option<Seq<char>> {
    match c_string_text(device_bytes) {
        None => None,
        Some(path) => match iso_name_spec(fs_type, fs_label) {
            Some(n) => Some(n),
            None => match timestamp {
                None => None,
                Some(t) => Some(fill_spec(template, seq![device_stem_spec(path), t])),
            },
        },
    }
}

/// The name proposed for a new image (see [`default_name_spec`]).
/// `device_bytes` is the device path as the disk service reports it, and
/// `fs_type` and `fs_label` are empty where it reports none.
pub fn default_image_name(
    device_bytes: &[u8],
    fs_type: &str,
    fs_label: &str,
    timestamp: Option<&str>,
    template: &str,
) -> (r: Option<String>)
    ensures
        match default_name_spec(device_bytes@, fs_type@, fs_label@, optional_text(timestamp), template@) {
            Some(n) => r matches Some(s) && s@ == n,
            None => r is None,
        },
{
    let path = match device_path_from_bytes(device_bytes) {
        Some(p) => p,
        None => return None,
    };
    let stem = device_stem(path.as_str());
    match iso_image_name(fs_type, fs_label) {
        Some(name) => Some(name),
        None => match timestamp {
            None => None,
            Some(t) => {
                let mut args: Vec<String> = Vec::new();
                args.push(stem);
                args.push(String::from_str(t));
                assert(texts(args@) =~= seq![device_stem_spec(path@), t@]);
                Some(fill_placeholders(template, &args))
            },
        },
    }
}

} // verus!
