//! Prompt construction for the external language-model collaborators. Each
//! prompt is a fixed template with the caller's values spliced in at fixed
//! positions, so every builder's output is pinned exactly as a
//! concatenation.

use vstd::prelude::*;

verus! {

/// Opening of the source-analysis and source-splitting prompts.
pub const CODE_PROMPT_HEAD: &'static str = "I have the following code in ";

/// Between the language name and the quoted code.
pub const CODE_PROMPT_FENCE: &'static str = ":\n\n```\n";

/// Instructions of the source-analysis prompt, after the quoted code.
pub const ANALYSE_PROMPT_TAIL: &'static str =
    "\n```\n\nCould you please explain what this code does, including the purpose of class and key part of the code?\n\nMake sure the JSON output is structured as follows:\n\n```\n{\n  \"purpose\": \"string\", // what this code is doing\n  \"classes\": [\n    {\n      \"name\": \"string\", // this class's name\n      \"source_code\": \"string\", // this class's raw content\n      \"purpose\": \"string\" // what this class is doing\n    }\n  ],\n  \"functions\": [\n    {\n      \"name\": \"string\", // this function's name\n      \"source_code\": \"string\", // this function's raw content\n      \"purpose\": \"string\" // what this function is doing\n    }\n  ]\n}\n```\n\nThis JSON output will help us understand the structure and functionality of the source code file in a clear and concise manner, So PLEASE give me a JSON data follow above structure.\n";

/// Instructions of the source-splitting prompt, after the quoted code.
pub const SPLIT_PROMPT_TAIL: &'static str =
    "\n```\n\nCould you please tell me what classes or functions in this code, and the class's/function's source code?\n\nMake sure the JSON output is structured as follows:\n\n```\n{\n  \"classes\": [\n    {\n      \"name\": \"string\", // this class's name\n      \"source_code\": \"string\", // this class's raw content\n    }\n  ],\n  \"functions\": [\n    {\n      \"name\": \"string\", // this function's name\n      \"source_code\": \"string\", // this function's raw content\n    }\n  ]\n}\n```\n\nThis JSON output will help us understand the structure and functionality of the source code file in a clear and concise manner, So PLEASE give me a JSON data follow above structure.\n";

/// Opening of the question-answering prompt.
pub const ASK_PROMPT_HEAD: &'static str = "Here is the user's query:\n\n```\n";

/// Between the quoted query and the retrieved texts.
pub const ASK_PROMPT_MID: &'static str =
    "\n```\n\nUnderstand the user's query and explain with the related description and source code:\n\n";

/// Closing of the question-answering prompt.
pub const ASK_PROMPT_TAIL: &'static str = "\nNo need to give the whole source code back.\n";

/// Opening of the project-summary prompt.
pub const SUMMARIZE_PROMPT_HEAD: &'static str = "Here is a list of files with their purposes:\n\n```\n";

/// Closing of the project-summary prompt.
pub const SUMMARIZE_PROMPT_TAIL: &'static str =
    "\n```\n\nPlease give a concise summary of the whole project based on the purposes above.\n";

/// The output-language note appended to every prompt.
pub const LANGUAGE_NOTE: &'static str = "\n\nMake sure all the output contents are in ";

/// The analysis prompt for one source file.
pub open spec fn spec_analyse_source_file_prompt(
    programming_language: Seq<char>,
    code: Seq<char>,
    language: Seq<char>,
) -> Seq<char> {
    CODE_PROMPT_HEAD@ + programming_language + CODE_PROMPT_FENCE@ + code + ANALYSE_PROMPT_TAIL@
        + LANGUAGE_NOTE@ + language + "."@
}

/// The splitting prompt for one source file.
pub open spec fn spec_split_source_file_prompt(
    programming_language: Seq<char>,
    code: Seq<char>,
    language: Seq<char>,
) -> Seq<char> {
    CODE_PROMPT_HEAD@ + programming_language + CODE_PROMPT_FENCE@ + code + SPLIT_PROMPT_TAIL@
        + LANGUAGE_NOTE@ + language + "."@
}

/// The block of retrieved texts: each one on its own paragraph.
pub open spec fn spec_retrieved_block(items: Seq<Seq<char>>) -> Seq<char>
    decreases items.len(),
{
    if items.len() == 0 {
        Seq::empty()
    } else {
        items[0] + "\n\n"@ + spec_retrieved_block(items.drop_first())
    }
}

/// The question-answering prompt: the query, then the retrieved texts.
pub open spec fn spec_ask_prompt(
    query: Seq<char>,
    code_list: Seq<Seq<char>>,
    language: Seq<char>,
) -> Seq<char> {
    ASK_PROMPT_HEAD@ + query + ASK_PROMPT_MID@ + spec_retrieved_block(code_list)
        + ASK_PROMPT_TAIL@ + LANGUAGE_NOTE@ + language + "."@
}

/// The project-summary prompt around the file-purpose digest.
pub open spec fn spec_summarize_prompt(digest: Seq<char>, language: Seq<char>) -> Seq<char> {
    SUMMARIZE_PROMPT_HEAD@ + digest + SUMMARIZE_PROMPT_TAIL@ + LANGUAGE_NOTE@ + language + "."@
}

/// Builds the analysis prompt for one source file.
pub fn analyse_source_file_prompt(programming_language: &str, code: &str, language: &str) -> (r:
    String)
    ensures
        r@ == spec_analyse_source_file_prompt(programming_language@, code@, language@),
{
    let mut r = String::from_str(CODE_PROMPT_HEAD);
    r.append(programming_language);
    r.append(CODE_PROMPT_FENCE);
    r.append(code);
    r.append(ANALYSE_PROMPT_TAIL);
    r.append(LANGUAGE_NOTE);
    r.append(language);
    r.append(".");
    r
}

/// Builds the splitting prompt for one source file.
pub fn split_source_file_prompt(programming_language: &str, code: &str, language: &str) -> (r:
    String)
    ensures
        r@ == spec_split_source_file_prompt(programming_language@, code@, language@),
{
    let mut r = String::from_str(CODE_PROMPT_HEAD);
    r.append(programming_language);
    r.append(CODE_PROMPT_FENCE);
    r.append(code);
    r.append(SPLIT_PROMPT_TAIL);
    r.append(LANGUAGE_NOTE);
    r.append(language);
    r.append(".");
    r
}

/// Appending one more retrieved text extends the block by one paragraph.
proof fn lemma_retrieved_block_push(items: Seq<Seq<char>>, item: Seq<char>)
    ensures
        spec_retrieved_block(items.push(item)) == spec_retrieved_block(items) + item + "\n\n"@,
    decreases items.len(),
{
    reveal_with_fuel(spec_retrieved_block, 3);
    if items.len() == 0 {
        assert(items.push(item)[0] == item);
        assert(items.push(item).drop_first() =~= Seq::<Seq<char>>::empty());
        assert(spec_retrieved_block(items.push(item).drop_first()) == Seq::<char>::empty());
        assert(Seq::<char>::empty() + item + "\n\n"@ =~= item + "\n\n"@ + Seq::<char>::empty());
    } else {
        assert(items.push(item).drop_first() =~= items.drop_first().push(item));
        lemma_retrieved_block_push(items.drop_first(), item);
        assert(items[0] + "\n\n"@ + (spec_retrieved_block(items.drop_first()) + item + "\n\n"@)
            =~= (items[0] + "\n\n"@ + spec_retrieved_block(items.drop_first())) + item + "\n\n"@);
    }
}

/// Builds the question-answering prompt around the query and the retrieved
/// texts.
pub fn ask_prompt(query: &str, code_list: &Vec<String>, language: &str) -> (r: String)
    ensures
        r@ == spec_ask_prompt(query@, code_list@.map_values(|s: String| s@), language@),
{
    let mut r = String::from_str(ASK_PROMPT_HEAD);
    r.append(query);
    r.append(ASK_PROMPT_MID);
    let ghost items = code_list@.map_values(|s: String| s@);
    let ghost head = ASK_PROMPT_HEAD@ + query@ + ASK_PROMPT_MID@;
    let mut i: usize = 0;
    proof {
        assert(items.take(0) =~= Seq::<Seq<char>>::empty());
        assert(r@ =~= head + spec_retrieved_block(items.take(0)));
    }
    while i < code_list.len()
        invariant
            0 <= i <= code_list@.len(),
            items == code_list@.map_values(|s: String| s@),
            r@ == head + spec_retrieved_block(items.take(i as int)),
        decreases code_list@.len() - i,
    {
        r.append(code_list[i].as_str());
        r.append("\n\n");
        proof {
            assert(items.take(i + 1) =~= items.take(i as int).push(items[i as int]));
            lemma_retrieved_block_push(items.take(i as int), items[i as int]);
            assert(head + spec_retrieved_block(items.take(i as int)) + items[i as int] + "\n\n"@
                =~= head + (spec_retrieved_block(items.take(i as int)) + items[i as int]
                + "\n\n"@));
        }
        i = i + 1;
    }
    proof {
        assert(items.take(items.len() as int) =~= items);
    }
    r.append(ASK_PROMPT_TAIL);
    r.append(LANGUAGE_NOTE);
    r.append(language);
    r.append(".");
    r
}

/// Builds the project-summary prompt around the file-purpose digest.
pub fn summarize_prompt(digest: &str, language: &str) -> (r: String)
    ensures
        r@ == spec_summarize_prompt(digest@, language@),
{
    let mut r = String::from_str(SUMMARIZE_PROMPT_HEAD);
    r.append(digest);
    r.append(SUMMARIZE_PROMPT_TAIL);
    r.append(LANGUAGE_NOTE);
    r.append(language);
    r.append(".");
    r
}

} // verus!
