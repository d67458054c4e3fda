use vstd::prelude::*;

verus! {

/// `https://{domain}/{repository}/{path}/{tail}`, with no escaping of any part.
pub open spec fn url_spec(
    domain: Seq<char>,
    repository: Seq<char>,
    path: Seq<char>,
    tail: Seq<char>,
) -> Seq<char> {
    "https://"@ + domain + "/"@ + repository + "/"@ + path + "/"@ + tail
}

/// The web URL of a view of a repository.
pub fn generate_url(domain: &str, repository: &String, path: &String, tail: &String) -> (r: String)
    ensures
        r@ == url_spec(domain@, repository@, path@, tail@),
{
    let mut url = "https://".to_owned();
    url.append(domain);
    url.append("/");
    url.append(repository.as_str());
    url.append("/");
    url.append(path.as_str());
    url.append("/");
    url.append(tail.as_str());
    url
}

/// The URL depends on the four parts alone: equal parts give an equal URL,
/// whatever else has happened.
pub proof fn lemma_url_depends_on_parts_alone(
    domain: Seq<char>,
    repository: Seq<char>,
    path: Seq<char>,
    tail: Seq<char>,
    other_domain: Seq<char>,
    other_repository: Seq<char>,
    other_path: Seq<char>,
    other_tail: Seq<char>,
)
    requires
        domain == other_domain,
        repository == other_repository,
        path == other_path,
        tail == other_tail,
    ensures
        url_spec(domain, repository, path, tail) == url_spec(
            other_domain,
            other_repository,
            other_path,
            other_tail,
        ),
{
}

} // verus!
