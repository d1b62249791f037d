//! The built-in themes and lookup by name.

use crate::color::Theme;
use vstd::prelude::*;

verus! {

/// The built-in themes, in lookup order.
pub open spec fn builtin_themes() -> Seq<Theme> {
    seq![
        Theme {
            name: "nord-frost",
            hour: "#5E81AC",
            minute: "#81A1C1",
            second: "#88C0D0",
            clock_face: "#8FBCBB",
        },
        Theme {
            name: "nord-aurora",
            hour: "#BF616A",
            minute: "#D08770",
            second: "#EBCB8B",
            clock_face: "#B48EAD",
        },
        Theme {
            name: "gruvbox-light",
            hour: "#928374",
            minute: "#a89984",
            second: "#bdae93",
            clock_face: "#d5c4a1",
        },
        Theme {
            name: "gruvbox-dark",
            hour: "#d5c4a1",
            minute: "#bdae93",
            second: "#a89984",
            clock_face: "#928374",
        },
        Theme {
            name: "monokai",
            hour: "#66d9ef",
            minute: "#ae81ff",
            second: "#f92672",
            clock_face: "#a6e22e",
        },
        Theme {
            name: "lime-light",
            hour: "#8da729",
            minute: "#99b436",
            second: "#a6c043",
            clock_face: "#b3cd4f",
        },
        Theme {
            name: "lime-dark",
            hour: "#dbf474",
            minute: "#cde768",
            second: "#c0da5b",
            clock_face: "#b3cd4f",
        },
    ]
}

/// The built-in themes: Nord, Gruvbox, Monokai and Lime palettes.
pub fn themes() -> (r: Vec<Theme>)
    ensures
        r@ == builtin_themes(),
{
    vec![
        Theme {
            name: "nord-frost",
            hour: "#5E81AC",
            minute: "#81A1C1",
            second: "#88C0D0",
            clock_face: "#8FBCBB",
        },
        Theme {
            name: "nord-aurora",
            hour: "#BF616A",
            minute: "#D08770",
            second: "#EBCB8B",
            clock_face: "#B48EAD",
        },
        Theme {
            name: "gruvbox-light",
            hour: "#928374",
            minute: "#a89984",
            second: "#bdae93",
            clock_face: "#d5c4a1",
        },
        Theme {
            name: "gruvbox-dark",
            hour: "#d5c4a1",
            minute: "#bdae93",
            second: "#a89984",
            clock_face: "#928374",
        },
        Theme {
            name: "monokai",
            hour: "#66d9ef",
            minute: "#ae81ff",
            second: "#f92672",
            clock_face: "#a6e22e",
        },
        Theme {
            name: "lime-light",
            hour: "#8da729",
            minute: "#99b436",
            second: "#a6c043",
            clock_face: "#b3cd4f",
        },
        Theme {
            name: "lime-dark",
            hour: "#dbf474",
            minute: "#cde768",
            second: "#c0da5b",
            clock_face: "#b3cd4f",
        },
    ]
}

/// The first theme of `s` whose name is `name`.
pub open spec fn first_named(s: Seq<Theme>, name: Seq<char>) -> Option<Theme>
    decreases s.len(),
{
    if s.len() == 0 {
        None
    } else if s[0].name@ == name {
        Some(s[0])
    } else {
        first_named(s.drop_first(), name)
    }
}

proof fn lemma_first_named_skip(s: Seq<Theme>, name: Seq<char>, i: int)
    requires
        0 <= i < s.len(),
        forall|j: int| 0 <= j < i ==> (#[trigger] s[j]).name@ != name,
    ensures
        first_named(s, name) == first_named(s.subrange(i, s.len() as int), name),
    decreases i,
{
    if i > 0 {
        assert(s.drop_first().subrange(i - 1, s.len() - 1) =~= s.subrange(i, s.len() as int));
        lemma_first_named_skip(s.drop_first(), name, i - 1);
    } else {
        assert(s.subrange(0, s.len() as int) =~= s);
    }
}

proof fn lemma_first_named_none(s: Seq<Theme>, name: Seq<char>)
    requires
        forall|j: int| 0 <= j < s.len() ==> (#[trigger] s[j]).name@ != name,
    ensures
        first_named(s, name) == None::<Theme>,
    decreases s.len(),
{
    if s.len() > 0 {
        assert forall|j: int| 0 <= j < s.drop_first().len() implies (
        #[trigger] s.drop_first()[j]).name@ != name by {
            assert(s.drop_first()[j] == s[j + 1]);
        }
        lemma_first_named_none(s.drop_first(), name);
    }
}

/// The built-in theme called `name`, if there is one.
pub fn find_theme(name: &str) -> (r: Option<Theme>)
    ensures
        r == first_named(builtin_themes(), name@),
{
    let all = themes();
    let wanted = name.to_owned();
    let mut i: usize = 0;
    while i < all.len()
        invariant
            all@ == builtin_themes(),
            wanted@ == name@,
            0 <= i <= all@.len(),
            forall|j: int| 0 <= j < i ==> (#[trigger] all@[j]).name@ != name@,
        decreases all.len() - i,
    {
        let candidate = all[i].name.to_owned();
        if candidate == wanted {
            proof {
                lemma_first_named_skip(all@, name@, i as int);
            }
            return Some(all[i]);
        }
        i = i + 1;
    }
    proof {
        lemma_first_named_none(all@, name@);
    }
    None
}

} // verus!
