//! The embedded archive that carries the server: which members it holds up to
//! the install key, and the checks made while extracting it.

use vstd::prelude::*;
use crate::exit_code::{ExitCode, ExitError};
use crate::text::{str_eq, push_char, push_str, views, lemma_views_push};

verus! {

/// The member whose content is the install key (an MD5 sum).
pub const INSTALL_BASE_KEY: &'static str = "install_base_key";

/// Scans archive members in order until one with a given name is seen.
pub struct PartialZipExtractor {
    pub stop_name: String,
    pub stop_value: Vec<u8>,
    /// The file members seen so far, up to and including the stop member.
    pub seen_names: Vec<String>,
    /// The stop member was seen.
    pub done: bool,
}

impl PartialZipExtractor {
    pub fn new(stop_name: &str) -> (r: PartialZipExtractor)
        ensures
            r.stop_name@ == stop_name@,
            r.stop_value@.len() == 0,
            r.seen_names@.len() == 0,
            !r.done,
    {
        PartialZipExtractor {
            stop_name: String::from_str(stop_name),
            stop_value: Vec::new(),
            seen_names: Vec::new(),
            done: false,
        }
    }

    /// Looks at the next member. Directories (by attribute, or by an empty
    /// name or one ending in '/') are skipped; a file is recorded, and the
    /// stop member ends the scan. Returns whether the member's content is
    /// wanted: only the stop member's is.
    pub fn accept(&mut self, filename: &str, is_dir: bool) -> (r: bool)
        requires
            !old(self).done,
        ensures
            ({
                let n = filename@;
                let skipped = is_dir || n.len() == 0 || n.last() == '/';
                &&& (skipped ==> !r && *final(self) == *old(self))
                &&& (!skipped ==> views(final(self).seen_names@) == views(old(self).seen_names@).push(n)
                    && final(self).done == (n == old(self).stop_name@)
                    && r == final(self).done
                    && final(self).stop_name == old(self).stop_name
                    && final(self).stop_value == old(self).stop_value)
            }),
    {
        let n = filename.unicode_len();
        if is_dir || n == 0 || filename.get_char(n - 1) == '/' {
            return false;
        }
        if str_eq(self.stop_name.as_str(), filename) {
            self.done = true;
        }
        let f = String::from_str(filename);
        proof {
            lemma_views_push(self.seen_names@, f);
        }
        self.seen_names.push(f);
        self.done
    }

    /// Takes the content of an accepted member: the stop member's is kept.
    pub fn process(&mut self, data: Vec<u8>)
        ensures
            old(self).done ==> final(self).stop_value@ == data@,
            !old(self).done ==> final(self).stop_value == old(self).stop_value,
            final(self).done == old(self).done,
            final(self).seen_names == old(self).seen_names,
            final(self).stop_name == old(self).stop_name,
    {
        if self.done {
            self.stop_value = data;
        }
    }

    /// The members seen and the stop member's content, once the scan is over;
    /// an error naming the archive when the stop member never came.
    pub fn finish(self, archive_path: &str) -> (r: Result<(Vec<String>, Vec<u8>), ExitError>)
        ensures
            self.done ==> (r matches Ok((names, value)) && names == self.seen_names && value == self.stop_value),
            !self.done ==> (r matches Err(e) && e.code == ExitCode::LocalEnvironmentalError),
    {
        if !self.done {
            let mut m = String::from_str("Failed to find member '");
            push_str(&mut m, self.stop_name.as_str());
            push_str(&mut m, "' in zip file '");
            push_str(&mut m, archive_path);
            push_str(&mut m, "'");
            return Err(ExitError::new(ExitCode::LocalEnvironmentalError, m));
        }
        Ok((self.seen_names, self.stop_value))
    }
}

/// The text of ASCII bytes; `None` when a byte is not ASCII.
pub fn ascii_text(b: &Vec<u8>) -> (r: Option<String>)
    ensures
        r is Some <==> forall|i: int| 0 <= i < b@.len() ==> b@[i] < 128,
        r matches Some(s) ==> s@.len() == b@.len() && forall|i: int| 0 <= i < b@.len() ==> s@[i] as u32 == b@[i] as u32,
{
    let mut s = String::new();
    let mut i: usize = 0;
    while i < b.len()
        invariant
            i <= b@.len(),
            s@.len() == i,
            forall|j: int| 0 <= j < i ==> b@[j] < 128,
            forall|j: int| 0 <= j < i ==> s@[j] as u32 == b@[j] as u32,
        decreases b@.len() - i,
    {
        let x = b[i];
        if x >= 128 {
            return None;
        }
        let c = x as char;
        push_char(&mut s, c);
        i = i + 1;
    }
    Some(s)
}

/// The members of the archive up to the install key, and the install key,
/// from a finished scan.
pub fn determine_archive_contents(extractor: PartialZipExtractor, archive_path: &str) -> (r: Result<(Vec<String>, String), ExitError>)
    ensures
        !extractor.done ==> r is Err,
        extractor.done ==> (r is Ok <==> forall|i: int| 0 <= i < extractor.stop_value@.len() ==> extractor.stop_value@[i] < 128),
        r matches Ok((names, key)) ==> names == extractor.seen_names && key@.len() == extractor.stop_value@.len()
            && forall|i: int| 0 <= i < key@.len() ==> key@[i] as u32 == extractor.stop_value@[i] as u32,
        r matches Err(e) ==> e.code == ExitCode::LocalEnvironmentalError,
{
    let (names, value) = extractor.finish(archive_path)?;
    match ascii_text(&value) {
        Some(key) => Ok((names, key)),
        None => {
            let mut m = String::from_str("The install key in '");
            push_str(&mut m, archive_path);
            push_str(&mut m, "' is not ASCII text");
            Err(ExitError::new(ExitCode::LocalEnvironmentalError, m))
        },
    }
}

/// The server jar: the first member of the archive.
pub fn get_server_jar_path(archive_contents: &Vec<String>) -> (r: Result<String, ExitError>)
    ensures
        archive_contents@.len() == 0 ==> (r matches Err(e) && e.code == ExitCode::LocalEnvironmentalError),
        archive_contents@.len() > 0 ==> (r matches Ok(p) && p@ == archive_contents@[0]@),
{
    if archive_contents.len() == 0 {
        return Err(ExitError::new(
            ExitCode::LocalEnvironmentalError,
            String::from_str("Couldn't find server jar in archive"),
        ));
    }
    Ok(archive_contents[0].clone())
}

/// After extraction: the install key found in the archive must be the one
/// the client started with, else the binary was replaced meanwhile.
pub fn extract_archive_or_die(
    archive_path: &str,
    product_name: &str,
    expected_install_md5: &str,
    found_install_md5: &str,
) -> (r: Result<(), ExitError>)
    ensures
        r is Ok <==> found_install_md5@ == expected_install_md5@,
        r matches Err(e) ==> e.code == ExitCode::LocalEnvironmentalError,
{
    if str_eq(found_install_md5, expected_install_md5) {
        return Ok(());
    }
    let mut m = String::from_str("The ");
    push_str(&mut m, product_name);
    push_str(&mut m, " binary at ");
    push_str(&mut m, archive_path);
    push_str(&mut m, " was replaced during the client's self-extraction (old md5: ");
    push_str(&mut m, expected_install_md5);
    push_str(&mut m, " new md5: ");
    push_str(&mut m, found_install_md5);
    push_str(&mut m, "). If you expected this then you should simply re-run ");
    push_str(&mut m, product_name);
    push_str(
        &mut m,
        " in order to pick up the different version. If you didn't expect this then you should investigate what happened.",
    );
    Err(ExitError::new(ExitCode::LocalEnvironmentalError, m))
}

} // verus!
