use vstd::prelude::*;
use vstd::string::StrSliceExecFns;

use crate::errors::Error;

verus! {

/// The name and version line shown for `--version`.
pub fn version_message() -> (r: &'static str)
    ensures
        r@ == "pleroma-rss v0.1.0"@,
{
    "pleroma-rss v0.1.0"
}

/// The usage text shown for `--help`.
pub fn help_message() -> (r: &'static str)
    ensures
        r@
            == "USAGE:\n    pleroma-rss [FLAGS] [OPTIONS]\nFLAGS:\n    -h, --help      Prints help information.\n    -V, --version   Prints version information.\n    -n, --only-new  Only post new feed items.\n    -d, --dry-run   Only print the feed items that would be posted.\nOPTIONS:\n    -a, --access-token <access-token> The access token of the bot account.\n    -b, --base-url <base-url>         The base url of the pleroma instance.\n    -f, --feed-file <feed-file>       The path to the feeds file.\n    -t, --preview-image-template <preview-image-template> The path to the preview image template.\n    -i, --default-preview-image <default-preview-image>   The path to the default image\n                                                            when the feed item does not have an image."@,
{
    "USAGE:\n    pleroma-rss [FLAGS] [OPTIONS]\nFLAGS:\n    -h, --help      Prints help information.\n    -V, --version   Prints version information.\n    -n, --only-new  Only post new feed items.\n    -d, --dry-run   Only print the feed items that would be posted.\nOPTIONS:\n    -a, --access-token <access-token> The access token of the bot account.\n    -b, --base-url <base-url>         The base url of the pleroma instance.\n    -f, --feed-file <feed-file>       The path to the feeds file.\n    -t, --preview-image-template <preview-image-template> The path to the preview image template.\n    -i, --default-preview-image <default-preview-image>   The path to the default image\n                                                            when the feed item does not have an image."
}

/// Whether two strings hold the same characters.
pub fn str_eq(a: &str, b: &str) -> (r: bool)
    ensures
        r == (a@ == b@),
{
    let na = a.unicode_len();
    let nb = b.unicode_len();
    if na != nb {
        return false;
    }
    let mut i: usize = 0;
    while i < na
        invariant
            i <= na,
            na == a@.len(),
            na == b@.len(),
            forall|k: int| 0 <= k < i ==> a@[k] == b@[k],
        decreases na - i,
    {
        if a.get_char(i) != b.get_char(i) {
            return false;
        }
        i = i + 1;
    }
    proof {
        assert(a@ =~= b@);
    }
    true
}

/// What scanning the argument list yields for `flag`: the argument
/// following its first occurrence (`Some(Some(v))`), the flag standing last
/// with nothing after it (`Some(None)`), or no occurrence at all (`None`).
pub open spec fn flag_value(flag: Seq<char>, args: Seq<Seq<char>>) -> Option<Option<Seq<char>>>
    decreases args.len(),
{
    if args.len() == 0 {
        None
    } else if args[0] == flag {
        if args.len() >= 2 {
            Some(Some(args[1]))
        } else {
            Some(None)
        }
    } else {
        flag_value(flag, args.skip(1))
    }
}

/// Looks a flag's value up in an argument list.  The first occurrence of
/// the flag wins; a flag with nothing after it is reported apart from a
/// flag that does not occur.
pub fn get_flag(flag: &str, args: &Vec<String>) -> (r: Result<String, Error>)
    ensures
        ({
            let views = args@.map_values(|a: String| a@);
            match flag_value(flag@, views) {
                Some(Some(v)) => r matches Ok(s) && s@ == v,
                Some(None) => r matches Err(Error::UncompletedArgument(f)) && f@ == flag@,
                None => r matches Err(Error::MissingArgument(f)) && f@ == flag@,
            }
        }),
{
    let ghost views = args@.map_values(|a: String| a@);
    let mut i: usize = 0;
    proof {
        assert(views.skip(0) =~= views);
    }
    while i < args.len()
        invariant
            i <= views.len(),
            views == args@.map_values(|a: String| a@),
            flag_value(flag@, views) == flag_value(flag@, views.skip(i as int)),
        decreases views.len() - i,
    {
        let ghost tail = views.skip(i as int);
        proof {
            assert(tail[0] == views[i as int]);
            assert(tail.skip(1) =~= views.skip(i + 1));
        }
        if str_eq(args[i].as_str(), flag) {
            if i + 1 < args.len() {
                proof {
                    assert(tail[1] == views[i + 1]);
                }
                return Ok(args[i + 1].clone());
            } else {
                return Err(Error::UncompletedArgument(flag.to_owned()));
            }
        }
        i = i + 1;
    }
    Err(Error::MissingArgument(flag.to_owned()))
}

} // verus!
