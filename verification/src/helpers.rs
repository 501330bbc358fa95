//! Building the address of a resource from a base address, path parts and
//! query pairs.

use crate::text::join;
use url::ParseError;
use url::Url;
use vstd::prelude::*;
use vstd::string::StringExecFns;

verus! {

/// An address as `url` holds it, carried through as it is.
#[verifier::external_type_specification]
#[verifier::external_body]
pub struct ExUrl(Url);

/// The reason for which `url` takes a text for no address.
#[verifier::external_type_specification]
#[verifier::external_body]
pub struct ExParseError(ParseError);

/// `Url::join`: the address that a reference gives when it is read against a
/// base address, or the reason for which it gives none. Nothing is claimed of
/// the result.
#[verifier::external_body]
fn join_url(base: &Url, reference: &str) -> (r: Result<Url, ParseError>) {
    base.join(reference)
}

/// The texts of a list of strings.
pub open spec fn part_texts(parts: Seq<String>) -> Seq<Seq<char>> {
    parts.map_values(|part: String| part@)
}

/// The text `key=value` of each pair of a list.
pub open spec fn pair_texts(pairs: Seq<(String, String)>) -> Seq<Seq<char>> {
    pairs.map_values(|pair: (String, String)| pair.0@ + seq!['='] + pair.1@)
}

/// The reference that path parts and query pairs make: the parts with `/`
/// between them, and right behind them the pairs, each written `key=value`,
/// with `&` between them.
pub open spec fn reference_text(parts: Seq<String>, pairs: Seq<(String, String)>) -> Seq<char> {
    join(part_texts(parts), '/') + join(pair_texts(pairs), '&')
}

/// Gathers path parts and query pairs, and resolves them against a base
/// address.
pub struct UrlBuilder {
    base: Url,
    parts: Vec<String>,
    query: Vec<(String, String)>,
}

impl UrlBuilder {
    /// The base address.
    pub closed spec fn base(self) -> Url {
        self.base
    }

    /// The path parts gathered so far.
    pub closed spec fn parts(self) -> Seq<String> {
        self.parts@
    }

    /// The query pairs gathered so far.
    pub closed spec fn query(self) -> Seq<(String, String)> {
        self.query@
    }

    /// A builder on the given base address, with no parts and no pairs.
    pub fn new(base: Url) -> (r: UrlBuilder)
        ensures
            r.base() == base,
            r.parts().len() == 0,
            r.query().len() == 0,
    {
        UrlBuilder { base, parts: Vec::new(), query: Vec::new() }
    }

    /// Adds a path part behind those gathered so far.
    pub fn add_part(&mut self, part: &str) -> (r: &mut UrlBuilder)
        ensures
            r.base() == old(self).base(),
            r.query() == old(self).query(),
            r.parts().len() == old(self).parts().len() + 1,
            r.parts().drop_last() == old(self).parts(),
            r.parts().last()@ == part@,
            *final(self) == *final(r),
    {
        self.parts.push(String::from_str(part));
        self
    }

    /// Adds a query pair behind those gathered so far.
    pub fn add_query(&mut self, key: &str, value: &str) -> (r: &mut UrlBuilder)
        ensures
            r.base() == old(self).base(),
            r.parts() == old(self).parts(),
            r.query().len() == old(self).query().len() + 1,
            r.query().drop_last() == old(self).query(),
            r.query().last().0@ == key@,
            r.query().last().1@ == value@,
            *final(self) == *final(r),
    {
        self.query.push((String::from_str(key), String::from_str(value)));
        self
    }

    /// The reference that the parts and pairs gathered so far make.
    pub fn reference(&self) -> (r: String)
        ensures
            r@ == reference_text(self.parts(), self.query()),
    {
        let mut out = String::new();
        let ghost all = part_texts(self.parts@);
        let mut i: usize = 0;
        proof {
            assert(join(all.take(0), '/') == Seq::<char>::empty());
        }
        while i < self.parts.len()
            invariant
                i <= self.parts.len(),
                all == part_texts(self.parts@),
                out@ == join(all.take(i as int), '/'),
            decreases self.parts.len() - i,
        {
            proof {
                assert(all.take(i + 1).drop_last() == all.take(i as int));
                assert(all.take(i + 1).last() == self.parts@[i as int]@);
            }
            if i > 0 {
                out.append("/");
                proof {
                    reveal_strlit("/");
                    assert("/"@ == seq!['/']);
                }
            }
            out.append(self.parts[i].as_str());
            i += 1;
        }
        proof {
            assert(all.take(i as int) == all);
        }
        let ghost path = out@;
        let ghost pairs = pair_texts(self.query@);
        let mut k: usize = 0;
        proof {
            assert(join(pairs.take(0), '&') == Seq::<char>::empty());
            assert(path + Seq::<char>::empty() == path);
        }
        while k < self.query.len()
            invariant
                k <= self.query.len(),
                pairs == pair_texts(self.query@),
                out@ == path + join(pairs.take(k as int), '&'),
            decreases self.query.len() - k,
        {
            proof {
                assert(pairs.take(k + 1).drop_last() == pairs.take(k as int));
                assert(pairs.take(k + 1).last() == self.query@[k as int].0@ + seq!['=']
                    + self.query@[k as int].1@);
                reveal_strlit("&");
                reveal_strlit("=");
                assert("&"@ == seq!['&']);
                assert("="@ == seq!['=']);
            }
            if k > 0 {
                out.append("&");
            }
            out.append(self.query[k].0.as_str());
            out.append("=");
            out.append(self.query[k].1.as_str());
            k += 1;
        }
        proof {
            assert(pairs.take(k as int) == pairs);
        }
        out
    }

    /// The address that the reference gives when it is read against the base
    /// address, or the reason for which it gives none.
    pub fn build(&mut self) -> (r: Result<Url, ParseError>)
        ensures
            *final(self) == *old(self),
    {
        let reference = self.reference();
        join_url(&self.base, reference.as_str())
    }
}

} // verus!
