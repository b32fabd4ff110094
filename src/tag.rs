use vstd::prelude::*;
use crate::error::BumpError;
use crate::version::{Version, version_le, version_text, zero_version};

verus! {

/// A release tag: `<package>-<prefix><semver>` for a package, `<prefix><semver>` otherwise.
/// `oid` is the revision the tag points at, absent for a tag that is not created yet.
#[derive(Debug)]
pub struct Tag {
    pub package: Option<String>,
    pub prefix: Option<String>,
    pub version: Version,
    pub oid: Option<String>,
}

/// Why a tag could not be read from the revision store.
#[derive(Debug)]
pub enum TagError {
    /// The scope has no tag yet.
    NoTag,
    /// The latest tag is not a well-formed semantic version.
    NotSemver { tag: String },
    /// The revision store failed.
    Store { cause: String },
}

pub open spec fn opt_text(o: Option<String>) -> Seq<char> {
    match o {
        Some(s) => s@,
        None => Seq::empty(),
    }
}

/// The name under which a tag is stored.
pub open spec fn tag_name(t: Tag) -> Seq<char> {
    let head = match t.package {
        Some(p) => p@ + seq!['-'],
        None => Seq::empty(),
    };
    head + opt_text(t.prefix) + version_text(t.version)
}

pub fn copy_text(o: &Option<String>) -> (r: Option<String>)
    ensures
        r == *o,
{
    match o {
        Some(s) => Some(s.clone()),
        None => None,
    }
}

impl Tag {
    /// The zero tag `0.0.0`, standing for "no prior release".
    pub fn zero() -> (r: Tag)
        ensures
            r.version == zero_version(),
            r.package.is_none(),
            r.prefix.is_none(),
            r.oid.is_none(),
    {
        Tag { package: None, prefix: None, version: Version::zero(), oid: None }
    }

    pub fn new(package: Option<String>, prefix: Option<String>, version: Version) -> (r: Tag)
        ensures
            r == (Tag { package, prefix, version, oid: None }),
    {
        Tag { package, prefix, version, oid: None }
    }

    pub fn is_zero(&self) -> (r: bool)
        ensures
            r == (self.version == zero_version()),
    {
        self.version.is_zero()
    }

    /// A field-by-field copy.
    pub fn duplicate(&self) -> (r: Tag)
        ensures
            r == *self,
    {
        Tag {
            package: copy_text(&self.package),
            prefix: copy_text(&self.prefix),
            version: self.version.duplicate(),
            oid: copy_text(&self.oid),
        }
    }

    /// The same scope and prefix, at another version, not created yet.
    pub fn with_version(&self, version: Version) -> (r: Tag)
        ensures
            r.package == self.package,
            r.prefix == self.prefix,
            r.version == version,
            r.oid.is_none(),
    {
        Tag {
            package: copy_text(&self.package),
            prefix: copy_text(&self.prefix),
            version,
            oid: None,
        }
    }

    /// The name under which the tag is stored.
    pub fn name(&self) -> (r: String)
        ensures
            r@ == tag_name(*self),
    {
        let mut s = String::new();
        match &self.package {
            Some(p) => {
                s.append(p.as_str());
                s.append("-");
            },
            None => {},
        }
        match &self.prefix {
            Some(p) => {
                s.append(p.as_str());
            },
            None => {},
        }
        let v = self.version.text();
        s.append(v.as_str());
        proof {
            reveal_strlit("-");
        }
        assert(s@ =~= tag_name(*self));
        s
    }
}

/// The tag read for a scope, where a missing tag stands for the zero tag.
pub fn tag_or_fallback_to_zero(tag: Result<Tag, TagError>) -> (r: Result<Tag, TagError>)
    ensures
        tag is Ok ==> r == tag,
        tag matches Err(TagError::NoTag) ==> r matches Ok(t) && t.version == zero_version()
            && t.package.is_none() && t.prefix.is_none() && t.oid.is_none(),
        tag matches Err(e) && !(e is NoTag) ==> r == tag,
{
    match tag {
        Ok(t) => Ok(t),
        Err(TagError::NoTag) => Ok(Tag::zero()),
        Err(e) => Err(e),
    }
}

/// Accepts `next` only when it is strictly greater than `current`.
pub fn ensure_tag_is_greater_than_previous(current: &Tag, next: &Tag) -> (r: Result<(), BumpError>)
    ensures
        !version_le(next.version, current.version) ==> r is Ok,
        version_le(next.version, current.version) ==> r == Err::<(), BumpError>(
            BumpError::Ordering { current: current.version, next: next.version },
        ),
{
    if next.version.le(&current.version) {
        return Err(
            BumpError::Ordering { current: current.version.duplicate(), next: next.version.duplicate() },
        );
    }
    Ok(())
}

} // verus!
