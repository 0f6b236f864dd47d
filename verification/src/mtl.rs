use vstd::prelude::*;

use crate::error::LoadError;
use crate::obj::{is_tok1, is_tok2, is_tok6};
use crate::tok::{copy_bytes, line_tokens, tokenize, views_of};

verus! {

/// What one material-file line does to the diffuse-map reference
/// gathered so far. `newmtl`, the color directives `Ka`, `Kd`, `Ks`, the
/// exponent `Ns` and the maps `map_Ka`, `map_Ks`, `map_Ns` are recognized
/// and discarded; `map_Kd` records the referenced texture file, the last
/// one standing; comments and blank lines are ignored; a `map_Kd`
/// without its file and any unrecognized directive is an unknown token.
pub open spec fn step_mtl_line(cur: Option<Seq<u8>>, line: Seq<u8>) -> Result<
    Option<Seq<u8>>,
    LoadError,
> {
    let ts = line_tokens(line);
    if ts.len() == 0 {
        Ok(cur)
    } else {
        let w = ts[0];
        if w == seq![35u8] {  // `#`
            Ok(cur)
        } else if w == seq![110u8, 101u8, 119u8, 109u8, 116u8, 108u8] {  // `newmtl`
            Ok(cur)
        } else if w == seq![75u8, 97u8] || w == seq![75u8, 100u8] || w == seq![75u8, 115u8] || w
            == seq![78u8, 115u8] {  // `Ka`, `Kd`, `Ks`, `Ns`
            Ok(cur)
        } else if w == seq![109u8, 97u8, 112u8, 95u8, 75u8, 97u8] {  // `map_Ka`
            Ok(cur)
        } else if w == seq![109u8, 97u8, 112u8, 95u8, 75u8, 100u8] {  // `map_Kd`
            if ts.len() < 2 {
                Err(LoadError::UnknownToken)
            } else {
                Ok(Some(ts[1]))
            }
        } else if w == seq![109u8, 97u8, 112u8, 95u8, 75u8, 115u8] {  // `map_Ks`
            Ok(cur)
        } else if w == seq![109u8, 97u8, 112u8, 95u8, 78u8, 115u8] {  // `map_Ns`
            Ok(cur)
        } else {
            Err(LoadError::UnknownToken)
        }
    }
}

/// The diffuse-map reference after the first `n` lines.
pub open spec fn mtl_upto(lines: Seq<Seq<u8>>, n: int) -> Result<Option<Seq<u8>>, LoadError>
    decreases n,
{
    if n <= 0 {
        Ok(None)
    } else {
        match mtl_upto(lines, n - 1) {
            Err(e) => Err(e),
            Ok(cur) => step_mtl_line(cur, lines[n - 1]),
        }
    }
}

/// What resolving a whole material file returns: the diffuse texture file
/// it references, if any, or the first failure. A file without `map_Kd`
/// resolves to a material with no diffuse texture.
pub open spec fn mtl_spec(lines: Seq<Seq<u8>>) -> Result<Option<Seq<u8>>, LoadError> {
    mtl_upto(lines, lines.len() as int)
}

/// Once a resolution has failed, every longer one fails the same way.
pub proof fn lemma_mtl_err_persists(lines: Seq<Seq<u8>>, n: int, m: int)
    requires
        0 <= n <= m,
        mtl_upto(lines, n).is_err(),
    ensures
        mtl_upto(lines, m) == mtl_upto(lines, n),
    decreases m - n,
{
    if m > n {
        lemma_mtl_err_persists(lines, n, m - 1);
    }
}

/// The view of an optional owned byte string.
pub open spec fn opt_bytes_view(o: Option<Vec<u8>>) -> Option<Seq<u8>> {
    match o {
        Some(v) => Some(v@),
        None => None,
    }
}

/// Resolves a material file, given as its lines, to the diffuse texture
/// file it references, if any: the result is exactly `mtl_spec` of the
/// lines.
pub fn resolve_material(lines: &Vec<Vec<u8>>) -> (r: Result<Option<Vec<u8>>, LoadError>)
    ensures
        r matches Ok(d) ==> mtl_spec(views_of(lines@)) == Ok::<Option<Seq<u8>>, LoadError>(
            opt_bytes_view(d),
        ),
        r matches Err(e) ==> mtl_spec(views_of(lines@)) == Err::<Option<Seq<u8>>, LoadError>(e),
{
    let ghost lviews = views_of(lines@);
    let mut diffuse: Option<Vec<u8>> = None;
    let nlines = lines.len();
    let mut li: usize = 0;
    while li < nlines
        invariant
            li <= nlines,
            nlines == lines@.len(),
            lviews == views_of(lines@),
            mtl_upto(lviews, li as int) == Ok::<Option<Seq<u8>>, LoadError>(
                opt_bytes_view(diffuse),
            ),
        decreases nlines - li,
    {
        let ghost cur0 = opt_bytes_view(diffuse);
        let lt = tokenize(&lines[li]);
        let ghost ts = line_tokens(lines@[li as int]@);
        proof {
            assert(lviews[li as int] == lines@[li as int]@);
            assert(views_of(lt@) == ts);
        }
        if lt.len() == 0 {
            // blank line
        } else {
            let w = &lt[0];
            proof {
                assert(w@ == ts[0]);
            }
            if is_tok1(w, 35u8) {
                // comment
            } else if is_tok6(w, 110u8, 101u8, 119u8, 109u8, 116u8, 108u8) {
                // newmtl: name discarded
            } else if is_tok2(w, 75u8, 97u8) || is_tok2(w, 75u8, 100u8) || is_tok2(w, 75u8, 115u8)
                || is_tok2(w, 78u8, 115u8) {
                // colors and exponent: discarded
            } else if is_tok6(w, 109u8, 97u8, 112u8, 95u8, 75u8, 97u8) {
                // ambient map: discarded
            } else if is_tok6(w, 109u8, 97u8, 112u8, 95u8, 75u8, 100u8) {
                // diffuse map
                if lt.len() < 2 {
                    proof {
                        lemma_mtl_err_persists(lviews, li as int + 1, lviews.len() as int);
                    }
                    return Err(LoadError::UnknownToken);
                }
                diffuse = Some(copy_bytes(&lt[1]));
            } else if is_tok6(w, 109u8, 97u8, 112u8, 95u8, 75u8, 115u8) {
                // specular map: discarded
            } else if is_tok6(w, 109u8, 97u8, 112u8, 95u8, 78u8, 115u8) {
                // exponent map: discarded
            } else {
                proof {
                    assert(step_mtl_line(cur0, lviews[li as int]) == Err::<
                        Option<Seq<u8>>,
                        LoadError,
                    >(LoadError::UnknownToken));
                    lemma_mtl_err_persists(lviews, li as int + 1, lviews.len() as int);
                }
                return Err(LoadError::UnknownToken);
            }
        }
        proof {
            assert(step_mtl_line(cur0, lviews[li as int]) == Ok::<Option<Seq<u8>>, LoadError>(
                opt_bytes_view(diffuse),
            ));
        }
        li += 1;
    }
    Ok(diffuse)
}

} // verus!
