//! Page rendering requests: which page ranges a renderer accepts, and the
//! errors a render can end in.

use vstd::prelude::*;

use crate::text::{decimal, push_decimal};

verus! {

/// Why rendering failed.
#[derive(Debug)]
pub enum RendererError {
    /// The `pdftoppm` utility is not installed.
    NotInstalled,
    /// Rendering `page` of the PDF at `path` failed for the reason `detail`.
    RenderFailed { page: u32, path: String, detail: String },
    /// A rendered image could not be decoded; holds the reason.
    ImageDecodeFailed(String),
}

impl RendererError {
    /// A sentence describing the error.
    pub fn message(&self) -> (r: String)
        ensures
            r@ == renderer_error_message(*self),
    {
        let mut s = String::new();
        match self {
            RendererError::NotInstalled => {
                s.append("pdftoppm not found. Install with: sudo pacman -S poppler");
            },
            RendererError::RenderFailed { page, path, detail } => {
                s.append("pdftoppm failed for page ");
                push_decimal(&mut s, *page as u64);
                s.append(" of ");
                s.append(path.as_str());
                s.append(": ");
                s.append(detail.as_str());
            },
            RendererError::ImageDecodeFailed(reason) => {
                s.append("failed to decode rendered image: ");
                s.append(reason.as_str());
            },
        }
        s
    }
}

/// The sentence for each renderer error.
pub open spec fn renderer_error_message(e: RendererError) -> Seq<char> {
    match e {
        RendererError::NotInstalled => "pdftoppm not found. Install with: sudo pacman -S poppler"@,
        RendererError::RenderFailed { page, path, detail } => "pdftoppm failed for page "@
            + decimal(page as nat) + " of "@ + path@ + ": "@ + detail@,
        RendererError::ImageDecodeFailed(reason) => "failed to decode rendered image: "@ + reason@,
    }
}

/// Whether `first..=last` is a page range a renderer accepts: pages count
/// from 1 and the range is not inverted.
pub open spec fn valid_page_range(first: u32, last: u32) -> bool {
    first >= 1 && last >= 1 && first <= last
}

/// The detail of the error for an invalid range.
pub open spec fn invalid_range_detail(first: u32, last: u32) -> Seq<char> {
    "invalid page range: first_page="@ + decimal(first as nat) + ", last_page="@ + decimal(
        last as nat,
    ) + " (pages must be >= 1 and first_page <= last_page)"@
}

/// Check a requested page range before any renderer runs: an invalid range is
/// a render failure for `first` naming both ends of the range.
pub fn check_page_range(pdf_path: &str, first: u32, last: u32) -> (r: Result<(), RendererError>)
    ensures
        valid_page_range(first, last) ==> r is Ok,
        !valid_page_range(first, last) ==> (r matches Err(RendererError::RenderFailed { page, path, detail })
            && page == first && path@ == pdf_path@ && detail@ == invalid_range_detail(first, last)),
{
    if first == 0 || last == 0 || first > last {
        let mut detail = String::new();
        detail.append("invalid page range: first_page=");
        push_decimal(&mut detail, first as u64);
        detail.append(", last_page=");
        push_decimal(&mut detail, last as u64);
        detail.append(" (pages must be >= 1 and first_page <= last_page)");
        Err(RendererError::RenderFailed { page: first, path: String::from_str(pdf_path), detail })
    } else {
        Ok(())
    }
}

/// The page numbers of a batch of `count` images rendered for a range that
/// starts at `first`: consecutive from `first`.
pub fn batch_page_numbers(first: u32, count: usize) -> (r: Vec<u32>)
    requires
        first as int + count as int <= u32::MAX + 1,
    ensures
        r@.len() == count,
        forall|i: int| 0 <= i < count ==> #[trigger] r@[i] == first + i,
{
    let mut out: Vec<u32> = Vec::new();
    let mut i: usize = 0;
    while i < count
        invariant
            i <= count,
            first as int + count as int <= u32::MAX + 1,
            out@.len() == i,
            forall|k: int| 0 <= k < i ==> #[trigger] out@[k] == first + k,
        decreases count - i,
    {
        out.push(first + i as u32);
        i = i + 1;
    }
    out
}

/// The decimal spelling of `n` as a string.
fn decimal_string(n: u32) -> (r: String)
    ensures
        r@ == decimal(n as nat),
{
    let mut s = String::new();
    push_decimal(&mut s, n as u64);
    s
}

/// Renders PDF pages with the system `pdftoppm` utility. The process itself
/// is run by the application; this says how it is asked.
pub struct PdftoppmRenderer;

impl PdftoppmRenderer {
    /// The options asking `pdftoppm` for pages `first..=last` as PNG at `dpi`:
    /// `-f <first> -l <last> -r <dpi> -png`. The PDF path and the output
    /// prefix follow them.
    pub fn batch_arguments(&self, first: u32, last: u32, dpi: u32) -> (r: Vec<String>)
        ensures
            r@.len() == 7,
            r@[0]@ == "-f"@,
            r@[1]@ == decimal(first as nat),
            r@[2]@ == "-l"@,
            r@[3]@ == decimal(last as nat),
            r@[4]@ == "-r"@,
            r@[5]@ == decimal(dpi as nat),
            r@[6]@ == "-png"@,
    {
        let mut args: Vec<String> = Vec::new();
        args.push(String::from_str("-f"));
        args.push(decimal_string(first));
        args.push(String::from_str("-l"));
        args.push(decimal_string(last));
        args.push(String::from_str("-r"));
        args.push(decimal_string(dpi));
        args.push(String::from_str("-png"));
        args
    }
}

} // verus!
