//! Tailwind utility classes and line numbers of offsets.
use vstd::prelude::*;
use crate::text::{chars_of, eq_lit, has_char, has_char_exec, last_index, rfind_char, slice_range, starts_with, starts_with_lit};

verus! {

/// Tailwind utilities that are matched exactly.
pub open spec fn exact_utilities() -> Seq<Seq<char>> {
    seq![
        "flex"@, "grid"@, "block"@, "inline"@, "inline-block"@, "inline-flex"@, "inline-grid"@,
        "hidden"@, "container"@, "table"@, "table-row"@, "table-cell"@, "relative"@,
        "absolute"@, "fixed"@, "sticky"@, "static"@, "visible"@, "invisible"@, "collapse"@,
        "sr-only"@, "not-sr-only"@, "pointer-events-none"@, "pointer-events-auto"@,
        "truncate"@, "italic"@, "underline"@, "line-through"@, "no-underline"@, "uppercase"@,
        "lowercase"@, "capitalize"@, "normal-case"@,
    ]
}

/// Prefixes that mark a class as a Tailwind utility.
pub open spec fn utility_prefixes() -> Seq<Seq<char>> {
    seq![
        "p-"@, "px-"@, "py-"@, "pt-"@, "pr-"@, "pb-"@, "pl-"@, "ps-"@, "pe-"@, "m-"@, "mx-"@,
        "my-"@, "mt-"@, "mr-"@, "mb-"@, "ml-"@, "ms-"@, "me-"@, "-m"@, "gap-"@, "space-"@,
        "w-"@, "h-"@, "min-w-"@, "min-h-"@, "max-w-"@, "max-h-"@, "size-"@, "text-"@,
        "font-"@, "leading-"@, "tracking-"@, "indent-"@, "decoration-"@, "underline-offset-"@,
        "bg-"@, "from-"@, "via-"@, "to-"@, "fill-"@, "stroke-"@, "border-"@, "outline-"@,
        "ring-"@, "shadow-"@, "rounded-"@, "divide-"@, "flex-"@, "grid-"@, "col-"@, "row-"@,
        "order-"@, "items-"@, "justify-"@, "content-"@, "place-"@, "self-"@, "auto-cols-"@,
        "auto-rows-"@, "z-"@, "top-"@, "right-"@, "bottom-"@, "left-"@, "inset-"@, "scale-"@,
        "rotate-"@, "translate-"@, "skew-"@, "origin-"@, "transition-"@, "duration-"@,
        "delay-"@, "ease-"@, "animate-"@, "opacity-"@, "mix-blend-"@, "bg-blend-"@,
        "backdrop-blur-"@, "backdrop-brightness-"@, "backdrop-contrast-"@,
        "backdrop-grayscale-"@, "backdrop-hue-rotate-"@, "backdrop-invert-"@,
        "backdrop-opacity-"@, "backdrop-saturate-"@, "backdrop-sepia-"@, "blur-"@,
        "brightness-"@, "contrast-"@, "drop-shadow-"@, "grayscale-"@, "hue-rotate-"@,
        "invert-"@, "saturate-"@, "sepia-"@, "cursor-"@, "pointer-events-"@, "resize-"@,
        "select-"@, "user-select-"@, "caret-"@, "accent-"@, "overflow-"@, "overscroll-"@,
        "scroll-"@, "snap-"@, "aspect-"@, "columns-"@, "break-"@, "break-after-"@,
        "break-before-"@, "break-inside-"@, "float-"@, "clear-"@, "object-"@, "isolation-"@,
        "list-"@, "placeholder-"@, "will-change-"@, "touch-"@,
    ]
}

fn exact_utility_list() -> (r: Vec<&'static str>)
    ensures
        r@.map_values(|s: &str| s@) == exact_utilities(),
{
    let r = vec![
        "flex", "grid", "block", "inline", "inline-block", "inline-flex", "inline-grid",
        "hidden", "container", "table", "table-row", "table-cell", "relative",
        "absolute", "fixed", "sticky", "static", "visible", "invisible", "collapse",
        "sr-only", "not-sr-only", "pointer-events-none", "pointer-events-auto",
        "truncate", "italic", "underline", "line-through", "no-underline", "uppercase",
        "lowercase", "capitalize", "normal-case",
    ];
    assert(r@.map_values(|s: &str| s@) =~= exact_utilities());
    r
}

fn utility_prefix_list() -> (r: Vec<&'static str>)
    ensures
        r@.map_values(|s: &str| s@) == utility_prefixes(),
{
    let r = vec![
        "p-", "px-", "py-", "pt-", "pr-", "pb-", "pl-", "ps-", "pe-", "m-", "mx-",
        "my-", "mt-", "mr-", "mb-", "ml-", "ms-", "me-", "-m", "gap-", "space-",
        "w-", "h-", "min-w-", "min-h-", "max-w-", "max-h-", "size-", "text-",
        "font-", "leading-", "tracking-", "indent-", "decoration-", "underline-offset-",
        "bg-", "from-", "via-", "to-", "fill-", "stroke-", "border-", "outline-",
        "ring-", "shadow-", "rounded-", "divide-", "flex-", "grid-", "col-", "row-",
        "order-", "items-", "justify-", "content-", "place-", "self-", "auto-cols-",
        "auto-rows-", "z-", "top-", "right-", "bottom-", "left-", "inset-", "scale-",
        "rotate-", "translate-", "skew-", "origin-", "transition-", "duration-",
        "delay-", "ease-", "animate-", "opacity-", "mix-blend-", "bg-blend-",
        "backdrop-blur-", "backdrop-brightness-", "backdrop-contrast-",
        "backdrop-grayscale-", "backdrop-hue-rotate-", "backdrop-invert-",
        "backdrop-opacity-", "backdrop-saturate-", "backdrop-sepia-", "blur-",
        "brightness-", "contrast-", "drop-shadow-", "grayscale-", "hue-rotate-",
        "invert-", "saturate-", "sepia-", "cursor-", "pointer-events-", "resize-",
        "select-", "user-select-", "caret-", "accent-", "overflow-", "overscroll-",
        "scroll-", "snap-", "aspect-", "columns-", "break-", "break-after-",
        "break-before-", "break-inside-", "float-", "clear-", "object-", "isolation-",
        "list-", "placeholder-", "will-change-", "touch-",
    ];
    assert(r@.map_values(|s: &str| s@) =~= utility_prefixes());
    r
}

/// The class without a leading `!` and without variant prefixes (`hover:`,
/// `dark:`, ...): what follows its last `:`.
pub open spec fn utility_base(class: Seq<char>) -> Seq<char> {
    let c = if class.len() > 0 && class[0] == '!' {
        class.skip(1)
    } else {
        class
    };
    c.skip(last_index(c, ':') + 1)
}

/// A class is a Tailwind utility when its base is one of the exact
/// utilities, starts with one of the utility prefixes, or holds an arbitrary
/// value (`[`).
pub open spec fn tailwind_utility(class: Seq<char>) -> bool {
    let base = utility_base(class);
    exact_utilities().contains(base) || (exists|i: int|
        0 <= i < utility_prefixes().len() && starts_with(base, #[trigger] utility_prefixes()[i]))
        || has_char(base, '[')
}

/// Whether a class name is a Tailwind utility (see `tailwind_utility`).
pub fn is_tailwind_utility(class: &str) -> (r: bool)
    ensures
        r == tailwind_utility(class@),
{
    let v = chars_of(class);
    let c = if v.len() > 0 && v[0] == '!' {
        let c = slice_range(v.as_slice(), 1, v.len());
        assert(c@ =~= v@.skip(1));
        c
    } else {
        v
    };
    let start = match rfind_char(c.as_slice(), ':', c.len()) {
        Some(i) => i + 1,
        None => 0,
    };
    assert(c@.take(c@.len() as int) == c@);
    let base = slice_range(c.as_slice(), start, c.len());
    assert(base@ =~= c@.skip(last_index(c@, ':') + 1));
    let ghost b = base@;
    assert(b == utility_base(class@));
    let exact = exact_utility_list();
    let mut i: usize = 0;
    while i < exact.len()
        invariant
            exact@.map_values(|s: &str| s@) == exact_utilities(),
            i <= exact.len(),
            base@ == b,
            b == utility_base(class@),
            forall|j: int| 0 <= j < i ==> exact_utilities()[j] != b,
        decreases exact.len() - i,
    {
        assert(exact_utilities()[i as int] == exact@[i as int]@);
        if eq_lit(base.as_slice(), exact[i]) {
            assert(exact_utilities()[i as int] == b);
            return true;
        }
        i = i + 1;
    }
    assert(!exact_utilities().contains(b));
    let prefixes = utility_prefix_list();
    let mut k: usize = 0;
    while k < prefixes.len()
        invariant
            prefixes@.map_values(|s: &str| s@) == utility_prefixes(),
            k <= prefixes.len(),
            base@ == b,
            b == utility_base(class@),
            forall|j: int| 0 <= j < k ==> !starts_with(b, #[trigger] utility_prefixes()[j]),
        decreases prefixes.len() - k,
    {
        assert(utility_prefixes()[k as int] == prefixes@[k as int]@);
        if starts_with_lit(base.as_slice(), prefixes[k]) {
            assert(starts_with(b, utility_prefixes()[k as int]));
            return true;
        }
        k = k + 1;
    }
    has_char_exec(base.as_slice(), '[')
}

/// Number of occurrences of `c` in `s`.
pub open spec fn count_char(s: Seq<char>, c: char) -> nat
    decreases s.len(),
{
    if s.len() == 0 {
        0
    } else {
        count_char(s.drop_last(), c) + if s.last() == c {
            1nat
        } else {
            0nat
        }
    }
}

/// The 1-based line of the character at `offset`: one more than the number of
/// newlines before it.
pub fn calculate_line(source: &[char], offset: usize) -> (r: usize)
    requires
        offset <= source.len() < usize::MAX,
    ensures
        r == count_char(source@.take(offset as int), '\n') + 1,
{
    let mut n: usize = 0;
    let mut i: usize = 0;
    while i < offset
        invariant
            i <= offset <= source.len(),
            n == count_char(source@.take(i as int), '\n'),
            n <= i,
        decreases offset - i,
    {
        assert(source@.take(i + 1).drop_last() =~= source@.take(i as int));
        if source[i] == '\n' {
            n = n + 1;
        }
        i = i + 1;
    }
    n + 1
}

} // verus!
