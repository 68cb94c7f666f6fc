//! The daily run before the collector starts: what is fetched from where,
//! and in which order the preparations go.
use crate::text::{signed_decimal, signed_decimal_text};
use vstd::prelude::*;
use vstd::string::StringExecFns;

verus! {

/// Folder for what is downloaded.
pub const RESOURCES_DIR: &'static str = "./resources";

/// Folder for the shard files.
pub const CONTENT_DIR: &'static str = "./content";

/// Address of the year-to-date quote archive of a year.
pub open spec fn quotes_url_of(year: int) -> Seq<char> {
    "https://bvmf.bmfbovespa.com.br/InstDados/SerHist/COTAHIST_A"@ + signed_decimal(year)
        + ".ZIP"@
}

/// File name of the quote archive of a year.
pub open spec fn quotes_archive_of(year: int) -> Seq<char> {
    "COTAHIST_A"@ + signed_decimal(year) + ".ZIP"@
}

/// File name of the unpacked quotes of a year.
pub open spec fn quotes_text_of(year: int) -> Seq<char> {
    "COTAHIST_A"@ + signed_decimal(year) + ".TXT"@
}

/// File name of the asset list of a year.
pub open spec fn assets_file_of(year: int) -> Seq<char> {
    "assets-"@ + signed_decimal(year) + ".txt"@
}

/// The names that a daily run works with.
#[derive(Clone, Debug, PartialEq, Eq)]
pub struct DailyNames {
    /// Address of the quote archive.
    pub quotes_url: String,
    /// File name of the quote archive, in the resources folder.
    pub quotes_archive: String,
    /// File name of the unpacked quotes, in the resources folder.
    pub quotes_text: String,
    /// File name of the asset list, in the resources folder.
    pub assets_file: String,
}

/// Gives the names that the daily run of a year works with.
pub fn daily_names(year: i32) -> (names: DailyNames)
    ensures
        names.quotes_url@ == quotes_url_of(year as int),
        names.quotes_archive@ == quotes_archive_of(year as int),
        names.quotes_text@ == quotes_text_of(year as int),
        names.assets_file@ == assets_file_of(year as int),
{
    let digits = signed_decimal_text(year);
    let mut quotes_url = String::from_str(
        "https://bvmf.bmfbovespa.com.br/InstDados/SerHist/COTAHIST_A",
    );
    quotes_url.append(digits.as_str());
    quotes_url.append(".ZIP");
    let mut quotes_archive = String::from_str("COTAHIST_A");
    quotes_archive.append(digits.as_str());
    quotes_archive.append(".ZIP");
    let mut quotes_text = String::from_str("COTAHIST_A");
    quotes_text.append(digits.as_str());
    quotes_text.append(".TXT");
    let mut assets_file = String::from_str("assets-");
    assets_file.append(digits.as_str());
    assets_file.append(".txt");
    DailyNames { quotes_url, quotes_archive, quotes_text, assets_file }
}

/// A stage of the daily run.
#[derive(Clone, Copy, Debug, PartialEq, Eq, Structural)]
pub enum Stage {
    /// Create the resources folder.
    MakeResources,
    /// Create the content folder.
    MakeContent,
    /// Download the quote archive.
    Download,
    /// Unpack the quote archive.
    Unpack,
    /// Extract the asset names and save them.
    ExtractAssets,
    /// Resolve address, login name and password.
    ResolveSecrets,
    /// Read the asset list back.
    ReadAssets,
    /// Run the collector.
    Collect,
    /// All stages are done.
    Finished,
    /// A stage has failed: the run is given up and the failure reported.
    Failed,
}

/// The stage that follows, by the result of the stage that was due: after
/// a success the next in order, after a failure none.
pub open spec fn stage_after(stage: Stage, ok: bool) -> Stage {
    match stage {
        Stage::Finished => Stage::Finished,
        Stage::Failed => Stage::Failed,
        _ => if !ok {
            Stage::Failed
        } else {
            match stage {
                Stage::MakeResources => Stage::MakeContent,
                Stage::MakeContent => Stage::Download,
                Stage::Download => Stage::Unpack,
                Stage::Unpack => Stage::ExtractAssets,
                Stage::ExtractAssets => Stage::ResolveSecrets,
                Stage::ResolveSecrets => Stage::ReadAssets,
                Stage::ReadAssets => Stage::Collect,
                _ => Stage::Finished,
            }
        },
    }
}

/// The first stage of a daily run.
pub fn first_stage() -> (stage: Stage)
    ensures
        stage == Stage::MakeResources,
{
    Stage::MakeResources
}

/// Gives the stage that follows.
pub fn next_stage(stage: Stage, ok: bool) -> (next: Stage)
    ensures
        next == stage_after(stage, ok),
{
    match stage {
        Stage::Finished => Stage::Finished,
        Stage::Failed => Stage::Failed,
        _ => {
            if !ok {
                Stage::Failed
            } else {
                match stage {
                    Stage::MakeResources => Stage::MakeContent,
                    Stage::MakeContent => Stage::Download,
                    Stage::Download => Stage::Unpack,
                    Stage::Unpack => Stage::ExtractAssets,
                    Stage::ExtractAssets => Stage::ResolveSecrets,
                    Stage::ResolveSecrets => Stage::ReadAssets,
                    Stage::ReadAssets => Stage::Collect,
                    _ => Stage::Finished,
                }
            }
        },
    }
}

} // verus!
