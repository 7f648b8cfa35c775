//! What validation says of a keybox.
use crate::text::{both, decimal, join, joined, number_text, texts};
use vstd::prelude::*;

verus! {

/// What validation says of one key.
#[derive(Debug)]
pub struct KeyReport {
    pub ok: bool,
    /// The number of the keybox that the key is in.
    pub keybox_index: usize,
    /// The number of the key in its keybox.
    pub key_index: usize,
    pub algorithm: String,
    pub errors: Vec<String>,
}

/// What validation says of a keybox.
#[derive(Debug)]
pub struct Report {
    pub ok: bool,
    pub keys: Vec<KeyReport>,
}

/// A key's algorithm and errors.
pub open spec fn short_line(key: KeyReport) -> Seq<char> {
    key.algorithm@ + "="@ + joined(texts(key.errors@), ","@)
}

/// A key's place, algorithm and errors.
pub open spec fn long_line(key: KeyReport) -> Seq<char> {
    "Keybox#"@ + decimal(key.keybox_index as nat) + "/Key#"@ + decimal(key.key_index as nat)
        + " ("@ + key.algorithm@ + "): "@ + joined(texts(key.errors@), "; "@)
}

/// The keys that are not in order.
pub open spec fn bad_keys(keys: Seq<KeyReport>) -> Seq<KeyReport> {
    keys.filter(|key: KeyReport| !key.ok)
}

/// The keys that are not in order, with the errors of each.
pub open spec fn rejection(report: Report) -> Seq<char> {
    joined(
        bad_keys(report.keys@).map_values(|key: KeyReport| short_line(key)),
        "; "@,
    )
}

/// The keys that are not in order, with the place and the errors of each.
pub open spec fn faults(report: Report) -> Seq<char> {
    joined(
        bad_keys(report.keys@).map_values(|key: KeyReport| long_line(key)),
        " | "@,
    )
}

fn short_text(key: &KeyReport) -> (r: String)
    ensures
        r@ == short_line(*key),
{
    let errors: String = join(&key.errors, ",");
    both(both(key.algorithm.as_str(), "=").as_str(), errors.as_str())
}

fn long_text(key: &KeyReport) -> (r: String)
    ensures
        r@ == long_line(*key),
{
    let mut out: String = "Keybox#".to_owned();
    out.append(number_text(key.keybox_index as u64).as_str());
    out.append("/Key#");
    out.append(number_text(key.key_index as u64).as_str());
    out.append(" (");
    out.append(key.algorithm.as_str());
    out.append("): ");
    out.append(join(&key.errors, "; ").as_str());
    out
}

/// The line of each key that is not in order.
fn bad_lines(keys: &Vec<KeyReport>, long: bool) -> (r: Vec<String>)
    ensures
        texts(r@) == bad_keys(keys@).map_values(
            |key: KeyReport|
                if long {
                    long_line(key)
                } else {
                    short_line(key)
                },
        ),
{
    let ghost line = |key: KeyReport|
        if long {
            long_line(key)
        } else {
            short_line(key)
        };
    let ghost bad = |key: KeyReport| !key.ok;
    let mut out: Vec<String> = Vec::new();
    let mut i: usize = 0;
    assert(keys@.take(0) == Seq::<KeyReport>::empty());
    assert(texts(out@) == bad_keys(keys@.take(0)).map_values(line)) by {
        reveal(Seq::filter);
    }
    while i < keys.len()
        invariant
            i <= keys.len(),
            line == (|key: KeyReport|
                if long {
                    long_line(key)
                } else {
                    short_line(key)
                }),
            texts(out@) == bad_keys(keys@.take(i as int)).map_values(line),
        decreases keys.len() - i,
    {
        let ghost before = out@;
        proof {
            reveal(Seq::filter);
            assert(keys@.take(i + 1).drop_last() == keys@.take(i as int));
            assert(keys@.take(i + 1).last() == keys@[i as int]);
        }
        if !keys[i].ok {
            let text: String = if long {
                long_text(&keys[i])
            } else {
                short_text(&keys[i])
            };
            out.push(text);
            assert(texts(out@) == texts(before).push(text@));
            assert(bad_keys(keys@.take(i + 1)) == bad_keys(keys@.take(i as int)).push(
                keys@[i as int],
            ));
            assert(bad_keys(keys@.take(i + 1)).map_values(line) == bad_keys(
                keys@.take(i as int),
            ).map_values(line).push(line(keys@[i as int])));
        }
        i += 1;
    }
    assert(keys@.take(i as int) == keys@);
    out
}

impl Report {
    /// The keys that are not in order, with the errors of each.
    pub fn rejection(&self) -> (r: String)
        ensures
            r@ == rejection(*self),
    {
        let lines: Vec<String> = bad_lines(&self.keys, false);
        assert(texts(lines@) == bad_keys(self.keys@).map_values(|key: KeyReport| short_line(key)));
        join(&lines, "; ")
    }

    /// The keys that are not in order, with the place and the errors of each.
    pub fn faults(&self) -> (r: String)
        ensures
            r@ == faults(*self),
    {
        let lines: Vec<String> = bad_lines(&self.keys, true);
        assert(texts(lines@) == bad_keys(self.keys@).map_values(|key: KeyReport| long_line(key)));
        join(&lines, " | ")
    }
}

} // verus!
