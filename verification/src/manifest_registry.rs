use vstd::prelude::*;

use crate::error::DomainError;
use crate::ids::{distinct, first_occurrence, lemma_first_position, first_position, names, position};

verus! {

/// Provisioned manifest documents keyed by immutable model reference; a
/// reference is provisioned at most once.
pub struct ProvisionedManifestRegistry {
    references: Vec<String>,
    documents: Vec<Vec<u8>>,
}

/// Whether no reference of `documents` occurs twice.
pub open spec fn references_distinct(documents: Seq<(String, Vec<u8>)>) -> bool {
    distinct(documents.map_values(|d: (String, Vec<u8>)| d.0@))
}

impl ProvisionedManifestRegistry {
    /// The provisioned references, in provisioning order.
    pub closed spec fn references(&self) -> Seq<Seq<char>> {
        names(self.references@)
    }

    /// The document provisioned for `reference`, if any.
    pub closed spec fn document_for(&self, reference: Seq<char>) -> Option<Seq<u8>> {
        if names(self.references@).contains(reference) {
            Some(self.documents@[first_position(names(self.references@), reference)]@)
        } else {
            None
        }
    }

    pub closed spec fn wf(&self) -> bool {
        &&& distinct(names(self.references@))
        &&& self.references@.len() == self.documents@.len()
    }

    /// Provisions `documents`; a reference given twice is refused.
    pub fn new(documents: Vec<(String, Vec<u8>)>) -> (r: Result<Self, DomainError>)
        ensures
            r is Ok <==> references_distinct(documents@),
            r matches Err(e) ==> e == DomainError::DisallowedSource,
            r matches Ok(registry) ==> {
                &&& registry.wf()
                &&& registry.references() == documents@.map_values(
                    |d: (String, Vec<u8>)| d.0@,
                )
                &&& forall|i: int|
                    0 <= i < documents@.len() ==> registry.document_for(#[trigger] documents@[i].0@)
                        == Some(documents@[i].1@)
            },
    {
        let ghost keys = documents@.map_values(|d: (String, Vec<u8>)| d.0@);
        let ghost input = documents@;
        let mut references: Vec<String> = Vec::new();
        let mut stored: Vec<Vec<u8>> = Vec::new();
        let mut rest = documents;
        let ghost total = input.len();
        while rest.len() > 0
            invariant
                keys == input.map_values(|d: (String, Vec<u8>)| d.0@),
                input == documents@,
                references@.len() == stored@.len(),
                references@.len() + rest@.len() == total,
                total == input.len(),
                names(references@) == keys.take(references@.len() as int),
                distinct(names(references@)),
                forall|i: int| 0 <= i < stored@.len() ==> #[trigger] stored@[i]@ == input[i].1@,
                rest@ == input.skip(references@.len() as int),
            decreases rest.len(),
        {
            let n = references.len();
            let ghost head = rest@[0];
            assert(head == input[n as int]);
            let (reference, document) = rest.remove(0);
            assert(rest@ =~= input.skip(n + 1));
            assert(keys[n as int] == reference@);
            match position(&references, &reference) {
                Some(j) => {
                    proof {
                        assert(names(references@)[j as int] == keys[j as int]);
                        assert(keys[j as int] == keys[n as int]);
                        assert(!distinct(keys));
                    }
                    return Err(DomainError::DisallowedSource);
                },
                None => {},
            }
            let ghost before = names(references@);
            references.push(reference);
            stored.push(document);
            proof {
                assert(names(references@) =~= before.push(keys[n as int]));
                assert(names(references@) =~= keys.take(n + 1));
                let s = names(references@);
                assert forall|a: int, b: int|
                    0 <= a < s.len() && 0 <= b < s.len() && a != b implies s[a] != s[b] by {
                    if a == n as int {
                        assert(before[b] != keys[n as int]);
                    } else if b == n as int {
                        assert(before[a] != keys[n as int]);
                    }
                }
            }
        }
        assert(keys.take(total as int) =~= keys);
        let registry = ProvisionedManifestRegistry { references, documents: stored };
        assert forall|i: int| 0 <= i < input.len() implies registry.document_for(
            #[trigger] input[i].0@,
        ) == Some(input[i].1@) by {
            let s = names(registry.references@);
            assert(s[i] == input[i].0@);
            assert(first_occurrence(s, s[i], i));
            lemma_first_position(s, s[i], i);
        }
        Ok(registry)
    }

    /// The document provisioned for `reference`.
    pub fn document(&self, reference: &String) -> (r: Result<&Vec<u8>, DomainError>)
        requires
            self.wf(),
        ensures
            match self.document_for(reference@) {
                Some(d) => r matches Ok(v) && v@ == d,
                None => r == Err::<&Vec<u8>, DomainError>(DomainError::ManifestUnavailable),
            },
    {
        match position(&self.references, reference) {
            Some(i) => {
                proof {
                    lemma_first_position(names(self.references@), reference@, i as int);
                }
                Ok(&self.documents[i])
            },
            None => Err(DomainError::ManifestUnavailable),
        }
    }
}

} // verus!
