use vstd::prelude::*;

verus! {

/// Edition of the SPDX license list that the registry holds.
pub const VERSION: &'static str = "3.24";

/// The recognized license identifiers, in byte order.
pub open spec fn license_ids() -> Seq<&'static str> {
    seq![
            "0BSD",
            "AAL",
            "AFL-1.1",
            "AFL-1.2",
            "AFL-2.0",
            "AFL-2.1",
            "AFL-3.0",
            "AGPL-1.0-only",
            "AGPL-1.0-or-later",
            "AGPL-3.0-only",
            "AGPL-3.0-or-later",
            "APSL-1.0",
            "APSL-1.1",
            "APSL-1.2",
            "APSL-2.0",
            "Apache-1.0",
            "Apache-1.1",
            "Apache-2.0",
            "Artistic-1.0",
            "Artistic-1.0-Perl",
            "Artistic-2.0",
            "BSD-1-Clause",
            "BSD-2-Clause",
            "BSD-2-Clause-Patent",
            "BSD-3-Clause",
            "BSD-3-Clause-Clear",
            "BSD-4-Clause",
            "BSL-1.0",
            "BlueOak-1.0.0",
            "CAL-1.0",
            "CC-BY-3.0",
            "CC-BY-4.0",
            "CC-BY-SA-3.0",
            "CC-BY-SA-4.0",
            "CC0-1.0",
            "CDDL-1.0",
            "CDDL-1.1",
            "CECILL-2.1",
            "CPAL-1.0",
            "CPL-1.0",
            "ECL-2.0",
            "EFL-2.0",
            "EPL-1.0",
            "EPL-2.0",
            "EUPL-1.1",
            "EUPL-1.2",
            "FSFAP",
            "FTL",
            "GFDL-1.3-only",
            "GFDL-1.3-or-later",
            "GPL-1.0-only",
            "GPL-1.0-or-later",
            "GPL-2.0-only",
            "GPL-2.0-or-later",
            "GPL-3.0-only",
            "GPL-3.0-or-later",
            "HPND",
            "IJG",
            "ISC",
            "LGPL-2.0-only",
            "LGPL-2.0-or-later",
            "LGPL-2.1-only",
            "LGPL-2.1-or-later",
            "LGPL-3.0-only",
            "LGPL-3.0-or-later",
            "LPL-1.02",
            "LPPL-1.3c",
            "Libpng",
            "MIT",
            "MIT-0",
            "MPL-1.0",
            "MPL-1.1",
            "MPL-2.0",
            "MPL-2.0-no-copyleft-exception",
            "MS-PL",
            "MS-RL",
            "NCSA",
            "ODbL-1.0",
            "OFL-1.1",
            "OSL-3.0",
            "OpenSSL",
            "PHP-3.01",
            "PSF-2.0",
            "PostgreSQL",
            "Python-2.0",
            "Ruby",
            "Sleepycat",
            "UPL-1.0",
            "Unicode-3.0",
            "Unicode-DFS-2016",
            "Unlicense",
            "Vim",
            "W3C",
            "WTFPL",
            "X11",
            "ZPL-2.1",
            "Zlib",
            "bzip2-1.0.6",
            "curl",
            "libtiff",
            "zlib-acknowledgement",
    ]
}

/// Whether `id` is exactly one of the recognized license identifiers.
pub open spec fn known_license(id: Seq<char>) -> bool {
    exists|i: int| 0 <= i < license_ids().len() && (#[trigger] license_ids()[i])@ == id
}

fn license_table() -> (r: Vec<&'static str>)
    ensures
        r@ == license_ids(),
{
    vec![
            "0BSD",
            "AAL",
            "AFL-1.1",
            "AFL-1.2",
            "AFL-2.0",
            "AFL-2.1",
            "AFL-3.0",
            "AGPL-1.0-only",
            "AGPL-1.0-or-later",
            "AGPL-3.0-only",
            "AGPL-3.0-or-later",
            "APSL-1.0",
            "APSL-1.1",
            "APSL-1.2",
            "APSL-2.0",
            "Apache-1.0",
            "Apache-1.1",
            "Apache-2.0",
            "Artistic-1.0",
            "Artistic-1.0-Perl",
            "Artistic-2.0",
            "BSD-1-Clause",
            "BSD-2-Clause",
            "BSD-2-Clause-Patent",
            "BSD-3-Clause",
            "BSD-3-Clause-Clear",
            "BSD-4-Clause",
            "BSL-1.0",
            "BlueOak-1.0.0",
            "CAL-1.0",
            "CC-BY-3.0",
            "CC-BY-4.0",
            "CC-BY-SA-3.0",
            "CC-BY-SA-4.0",
            "CC0-1.0",
            "CDDL-1.0",
            "CDDL-1.1",
            "CECILL-2.1",
            "CPAL-1.0",
            "CPL-1.0",
            "ECL-2.0",
            "EFL-2.0",
            "EPL-1.0",
            "EPL-2.0",
            "EUPL-1.1",
            "EUPL-1.2",
            "FSFAP",
            "FTL",
            "GFDL-1.3-only",
            "GFDL-1.3-or-later",
            "GPL-1.0-only",
            "GPL-1.0-or-later",
            "GPL-2.0-only",
            "GPL-2.0-or-later",
            "GPL-3.0-only",
            "GPL-3.0-or-later",
            "HPND",
            "IJG",
            "ISC",
            "LGPL-2.0-only",
            "LGPL-2.0-or-later",
            "LGPL-2.1-only",
            "LGPL-2.1-or-later",
            "LGPL-3.0-only",
            "LGPL-3.0-or-later",
            "LPL-1.02",
            "LPPL-1.3c",
            "Libpng",
            "MIT",
            "MIT-0",
            "MPL-1.0",
            "MPL-1.1",
            "MPL-2.0",
            "MPL-2.0-no-copyleft-exception",
            "MS-PL",
            "MS-RL",
            "NCSA",
            "ODbL-1.0",
            "OFL-1.1",
            "OSL-3.0",
            "OpenSSL",
            "PHP-3.01",
            "PSF-2.0",
            "PostgreSQL",
            "Python-2.0",
            "Ruby",
            "Sleepycat",
            "UPL-1.0",
            "Unicode-3.0",
            "Unicode-DFS-2016",
            "Unlicense",
            "Vim",
            "W3C",
            "WTFPL",
            "X11",
            "ZPL-2.1",
            "Zlib",
            "bzip2-1.0.6",
            "curl",
            "libtiff",
            "zlib-acknowledgement",
    ]
}

/// Whether two strings hold the same characters.
pub fn same_text(a: &str, b: &str) -> (r: bool)
    ensures
        r == (a@ == b@),
{
    let n = a.unicode_len();
    if n != b.unicode_len() {
        return false;
    }
    let mut i: usize = 0;
    while i < n
        invariant
            n == a@.len(),
            n == b@.len(),
            i <= n,
            forall|j: int| 0 <= j < i ==> a@[j] == b@[j],
        decreases n - i,
    {
        if a.get_char(i) != b.get_char(i) {
            return false;
        }
        i = i + 1;
    }
    assert(a@ =~= b@);
    true
}

/// Exact, case-sensitive membership test against the registry.
pub fn is_known_license(id: &str) -> (r: bool)
    ensures
        r == known_license(id@),
{
    let table = license_table();
    let mut i: usize = 0;
    while i < table.len()
        invariant
            table@ == license_ids(),
            i <= table@.len(),
            forall|j: int| 0 <= j < i ==> (#[trigger] license_ids()[j])@ != id@,
        decreases table.len() - i,
    {
        if same_text(table[i], id) {
            return true;
        }
        i = i + 1;
    }
    false
}

} // verus!
