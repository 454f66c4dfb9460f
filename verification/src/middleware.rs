//! The candidate file names a middleware module may live under: each
//! configured page extension behind each of the two fixed stems.

use vstd::prelude::*;
use crate::builder::strings_view;
use crate::strings::append_str;

verus! {

/// Every page extension behind `middleware.`, then every page extension
/// behind `src/middleware.`, in input order.
pub open spec fn middleware_files_spec(exts: Seq<Seq<char>>) -> Seq<Seq<char>> {
    exts.map_values(|e: Seq<char>| "middleware."@ + e) + exts.map_values(
        |e: Seq<char>| "src/middleware."@ + e,
    )
}

/// The candidate middleware file names for the given page extensions.
pub fn middleware_files(page_extensions: &Vec<String>) -> (r: Vec<String>)
    ensures
        strings_view(r@) == middleware_files_spec(strings_view(page_extensions@)),
{
    let ghost ev = strings_view(page_extensions@);
    let mut files: Vec<String> = Vec::new();
    let n = page_extensions.len();
    let mut k: usize = 0;
    while k < n
        invariant
            n == page_extensions@.len(),
            k <= n,
            ev == strings_view(page_extensions@),
            files@.len() == k,
            forall|j: int|
                0 <= j < k ==> strings_view(files@)[j] == "middleware."@ + #[trigger] ev[j],
        decreases n - k,
    {
        let mut name = String::new();
        append_str(&mut name, "middleware.");
        append_str(&mut name, page_extensions[k].as_str());
        proof {
            assert(name@ =~= "middleware."@ + ev[k as int]);
        }
        files.push(name);
        k = k + 1;
    }
    let mut k2: usize = 0;
    while k2 < n
        invariant
            n == page_extensions@.len(),
            k2 <= n,
            ev == strings_view(page_extensions@),
            files@.len() == n + k2,
            forall|j: int|
                0 <= j < n ==> strings_view(files@)[j] == "middleware."@ + #[trigger] ev[j],
            forall|j: int|
                0 <= j < k2 ==> strings_view(files@)[n + j] == "src/middleware."@
                    + #[trigger] ev[j],
        decreases n - k2,
    {
        let mut name = String::new();
        append_str(&mut name, "src/middleware.");
        append_str(&mut name, page_extensions[k2].as_str());
        proof {
            assert(name@ =~= "src/middleware."@ + ev[k2 as int]);
        }
        files.push(name);
        k2 = k2 + 1;
    }
    proof {
        let mfs = middleware_files_spec(ev);
        assert(mfs.len() == 2 * n);
        assert forall|j: int| 0 <= j < 2 * n implies strings_view(files@)[j] == mfs[j] by {
            if j < n {
                assert(mfs[j] == ev.map_values(|e: Seq<char>| "middleware."@ + e)[j]);
            } else {
                assert(mfs[j] == ev.map_values(|e: Seq<char>| "src/middleware."@ + e)[j - n]);
                assert(strings_view(files@)[n + (j - n)] == "src/middleware."@ + ev[j - n]);
            }
        }
        assert(strings_view(files@) =~= mfs);
    }
    files
}

} // verus!
