//! Export options: the directory variant, the domain filter and the
//! append flag.

use vstd::prelude::*;
use crate::text::same_text;

verus! {

/// The two directory structures of a Web Key Directory.
///
/// The direct variant serves one domain; the advanced variant serves any
/// number of domains, each under a directory of its own.
#[derive(Debug)]
pub enum Variant<'a> {
    /// Advanced variant supporting multiple domains.
    Advanced,
    /// Direct variant supporting just one domain.
    Direct(&'a str),
}

/// What a [`Variant`] stands for.
#[verifier::ext_equal]
pub enum VariantView {
    /// The advanced variant.
    Advanced,
    /// The direct variant, with its domain.
    Direct(Seq<char>),
}

impl<'a> View for Variant<'a> {
    type V = VariantView;

    open spec fn view(&self) -> VariantView {
        match self {
            Variant::Advanced => VariantView::Advanced,
            Variant::Direct(domain) => VariantView::Direct(domain@),
        }
    }
}

impl<'a> Default for Variant<'a> {
    fn default() -> (variant: Self)
        ensures
            variant@ == VariantView::Advanced,
    {
        Variant::Advanced
    }
}

/// The texts that a list of string slices holds, in order.
pub open spec fn texts(list: Seq<&str>) -> Seq<Seq<char>> {
    Seq::new(list.len(), |i: int| list[i]@)
}

/// The allow-list that an optional list of domains stands for.
pub open spec fn domain_texts(list: Option<Vec<&str>>) -> Option<Seq<Seq<char>>> {
    match list {
        None => None,
        Some(list) => Some(texts(list@)),
    }
}

/// `From<T>` for `Option<T>` of the standard library: the value comes back
/// in `Some`.
pub assume_specification<T>[ <Option<T> as From<T>>::from ](value: T) -> (wrapped: Option<T>)
    ensures
        wrapped == Some(value),
;

/// `From<T>` for `T` of the standard library: the value comes back
/// unchanged.
pub assume_specification<T>[ <T as From<T>>::from ](value: T) -> (same: T)
    ensures
        same == value,
;

/// Exporting options.
#[derive(Debug)]
pub struct Options<'a, 'b> {
    allowed_domains: Option<Vec<&'a str>>,
    append: bool,
    variant: Variant<'b>,
}

/// What an [`Options`] value stands for.
#[verifier::ext_equal]
pub struct OptionsView {
    /// The allow-list; `None` allows every domain.
    pub allowed_domains: Option<Seq<Seq<char>>>,
    /// Whether key files are appended to.
    pub append: bool,
    /// The directory variant.
    pub variant: VariantView,
}

impl OptionsView {
    /// Whether identities of `domain` are exported: always without an
    /// allow-list, else exactly when the list holds `domain` itself.
    pub open spec fn allows(self, domain: Seq<char>) -> bool {
        match self.allowed_domains {
            None => true,
            Some(list) => list.contains(domain),
        }
    }
}

impl<'a, 'b> View for Options<'a, 'b> {
    type V = OptionsView;

    closed spec fn view(&self) -> OptionsView {
        OptionsView {
            allowed_domains: domain_texts(self.allowed_domains),
            append: self.append,
            variant: self.variant@,
        }
    }
}

impl<'a, 'b> Default for Options<'a, 'b> {
    fn default() -> (options: Self)
        ensures
            options@ == (OptionsView {
                allowed_domains: None,
                append: false,
                variant: VariantView::Advanced,
            }),
    {
        Options { allowed_domains: None, append: false, variant: Variant::Advanced }
    }
}

impl<'a, 'b> Options<'a, 'b> where 'b: 'a {
    /// Sets a list of allowed domains for the export.
    ///
    /// Setting this option to `None` (the default) exports all domains.
    /// The allow-list becomes what `allowed_domains` converts into. This
    /// also replaces the filter that an earlier direct variant has set.
    /// Append mode and variant stay as they are.
    pub fn set_allowed_domains<I: Into<Option<Vec<&'a str>>>>(
        self,
        allowed_domains: I,
    ) -> (options: Self)
        ensures
            options@.append == self@.append,
            options@.variant == self@.variant,
            exists|list: Option<Vec<&'a str>>|
                call_ensures(I::into, (allowed_domains,), list)
                    && options@.allowed_domains == #[trigger] domain_texts(list),
    {
        let list: Option<Vec<&'a str>> = allowed_domains.into();
        Options { allowed_domains: list, append: self.append, variant: self.variant }
    }

    /// Check if a given domain is allowed for export: every domain is
    /// where no allow-list is set, else the domains that the list holds,
    /// compared character for character.
    pub fn is_domain_allowed(&self, domain: &str) -> (allowed: bool)
        ensures
            allowed == self@.allows(domain@),
    {
        match &self.allowed_domains {
            None => true,
            Some(list) => {
                let mut i: usize = 0;
                while i < list.len()
                    invariant
                        i <= list.len(),
                        self.allowed_domains == Some(*list),
                        forall|k: int| 0 <= k < i ==> texts(list@)[k] != domain@,
                    decreases list.len() - i,
                {
                    if same_text(list[i], domain) {
                        assert(texts(list@)[i as int] == domain@);
                        return true;
                    }
                    i += 1;
                }
                false
            },
        }
    }

    /// Set WKD directory variant.
    ///
    /// Setting a direct variant implies that the filter for that one
    /// domain will be applied as well: the allow-list becomes that domain
    /// alone, whatever it was. The advanced variant leaves the allow-list
    /// as it is.
    pub fn set_variant(self, variant: Variant<'b>) -> (options: Self)
        ensures
            options@ == (OptionsView {
                allowed_domains: match variant@ {
                    VariantView::Direct(domain) => Some(seq![domain]),
                    VariantView::Advanced => self@.allowed_domains,
                },
                append: self@.append,
                variant: variant@,
            }),
    {
        let options = Options {
            allowed_domains: self.allowed_domains,
            append: self.append,
            variant,
        };
        match options.variant {
            Variant::Direct(domain) => options.set_allowed_domains(vec![domain]),
            Variant::Advanced => options,
        }
    }

    /// The directory variant.
    pub fn variant(&self) -> (variant: &Variant<'b>)
        ensures
            variant@ == self@.variant,
    {
        &self.variant
    }

    /// Whether append mode is enabled.
    pub fn append(&self) -> (append: bool)
        ensures
            append == self@.append,
    {
        self.append
    }

    /// Enables or disables append mode.
    pub fn set_append(self, append: bool) -> (options: Self)
        ensures
            options@ == (OptionsView { append, ..self@ }),
    {
        Options { allowed_domains: self.allowed_domains, append, variant: self.variant }
    }
}

} // verus!

