use vstd::prelude::*;

use crate::error::StoreError;
use crate::text::{is_literal, split_words, views, words};

verus! {

/// A key as listed in a `KEYS` reply: every key but the last is followed by
/// a comma.
pub open spec fn listed_key(ws: Seq<Seq<char>>, i: int) -> Seq<char> {
    if i < ws.len() - 1 && ws[i].len() > 0 && ws[i].last() == ',' {
        ws[i].drop_last()
    } else {
        ws[i]
    }
}

/// The keys that a `KEYS` reply lists.
pub open spec fn keys_of_reply(s: Seq<char>) -> Seq<Seq<char>> {
    if s == "No keys found"@ {
        seq![]
    } else {
        Seq::new(words(s).len(), |i: int| listed_key(words(s), i))
    }
}

/// The address of a node to which command lines are sent, one per
/// connection, and the reading of the replies to the common commands.
pub struct Client {
    address: String,
}

impl Client {
    pub closed spec fn spec_address(&self) -> Seq<char> {
        self.address@
    }

    /// A client of the node at `address`.
    pub fn new(address: String) -> (r: Self)
        ensures
            r.spec_address() == address@,
    {
        Client { address }
    }

    /// The address of the node.
    pub fn address(&self) -> (r: &String)
        ensures
            r@ == self.spec_address(),
    {
        &self.address
    }

    /// What a reply to `GET` says: the value, or none when the key is absent.
    pub fn read_get_reply(response: String) -> (r: Option<String>)
        ensures
            (response@ == "NULL"@ || response@ == "Key not found"@) ==> r is None,
            !(response@ == "NULL"@ || response@ == "Key not found"@) ==> r == Some(response),
    {
        if is_literal(&response, "NULL") || is_literal(&response, "Key not found") {
            None
        } else {
            Some(response)
        }
    }

    /// What a reply to `PUT` says: success on `OK`, else the reply as an error.
    pub fn read_put_reply(response: String) -> (r: Result<(), StoreError>)
        ensures
            response@ == "OK"@ ==> r is Ok,
            response@ != "OK"@ ==> r == Err::<(), StoreError>(StoreError::SerializationError(response)),
    {
        if is_literal(&response, "OK") {
            Ok(())
        } else {
            Err(StoreError::SerializationError(response))
        }
    }

    /// What a reply to `DELETE` says: whether the key was there.
    pub fn read_delete_reply(response: &str) -> (r: bool)
        ensures
            r == (response@ == "OK"@),
    {
        let got = response.to_owned();
        is_literal(&got, "OK")
    }

    /// The keys that a reply to `KEYS` lists.
    pub fn read_keys_reply(response: &str) -> (r: Vec<String>)
        ensures
            views(r@) == keys_of_reply(response@),
    {
        let got = response.to_owned();
        if is_literal(&got, "No keys found") {
            let r: Vec<String> = Vec::new();
            assert(views(r@) =~= keys_of_reply(response@));
            return r;
        }
        let parts = split_words(response);
        let ghost ws = words(response@);
        let mut out: Vec<String> = Vec::new();
        let mut i: usize = 0;
        while i < parts.len()
            invariant
                views(parts@) == ws,
                i <= parts.len(),
                out.len() == i,
                forall|j: int| 0 <= j < i ==> (#[trigger] views(out@)[j]) == listed_key(ws, j),
            decreases parts.len() - i,
        {
            let part = parts[i].as_str();
            let n = part.unicode_len();
            assert(ws[i as int] == parts@[i as int]@);
            let item = if i + 1 < parts.len() && n > 0 && part.get_char(n - 1) == ',' {
                part.substring_char(0, n - 1).to_owned()
            } else {
                part.to_owned()
            };
            proof {
                assert(item@ =~= listed_key(ws, i as int));
            }
            let ghost before = views(out@);
            out.push(item);
            proof {
                assert(views(out@) =~= before.push(listed_key(ws, i as int)));
                assert forall|j: int| 0 <= j < i + 1 implies (#[trigger] views(out@)[j]) == listed_key(ws, j) by {
                    if j < i {
                        assert(views(out@)[j] == before[j]);
                    }
                }
            }
            i += 1;
        }
        assert(views(out@) =~= keys_of_reply(response@));
        out
    }
}

} // verus!
