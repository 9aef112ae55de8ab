//! The SQL that sets up the extension and demonstrates it.

use vstd::prelude::*;

verus! {

/// Name of the extension inside the database.
pub const EXTENSION_NAME: &'static str = "vectors";

/// Creates the demonstration table, unless it exists.
pub const CREATE_TABLE_ITEMS: &'static str = "CREATE TABLE IF NOT EXISTS items (
            id bigserial PRIMARY KEY,
            embedding vector(3) NOT NULL
        );";

/// Inserts the two demonstration rows as textual vector literals.
pub const INSERT_TEXT_LITERALS: &'static str = "INSERT INTO items (embedding) VALUES ('[1,2,3]'), ('[4,5,6]');";

/// Inserts the two demonstration rows as casts of real arrays.
pub const INSERT_ARRAY_CASTS: &'static str = "INSERT INTO items (embedding) VALUES (ARRAY[1, 2, 3]::real[]), (ARRAY[4, 5, 6]::real[]);";

/// Squared Euclidean distance of `[1,2,3]` and `[3,2,1]`.
pub const SQUARED_EUCLIDEAN_QUERY: &'static str = "SELECT '[1, 2, 3]'::vector <-> '[3, 2, 1]'::vector AS squared_euclidean_distance;";

/// Negative dot product of `[1,2,3]` and `[3,2,1]`.
pub const NEGATIVE_DOT_QUERY: &'static str = "SELECT '[1, 2, 3]'::vector <#> '[3, 2, 1]'::vector AS negative_dot_product;";

/// Cosine distance of `[1,2,3]` and `[3,2,1]`.
pub const COSINE_QUERY: &'static str = "SELECT '[1, 2, 3]'::vector <=> '[3, 2, 1]'::vector AS cosine_distance;";

/// The five rows nearest to `[3,2,1]`, nearest first, with the vector as text.
pub const NEAREST_QUERY: &'static str = "SELECT id, embedding::text FROM items ORDER BY embedding <-> '[3,2,1]' LIMIT 5;";

/// `ALTER SYSTEM SET <setting> = <value>`.
pub open spec fn set_statement(setting: Seq<char>, value: Seq<char>) -> Seq<char> {
    "ALTER SYSTEM SET "@ + setting + " = "@ + value
}

/// `CREATE EXTENSION <name>;`.
pub open spec fn create_extension_statement(name: Seq<char>) -> Seq<char> {
    "CREATE EXTENSION "@ + name + ";"@
}

/// The statement that persists `setting = value` in the server's configuration.
pub fn alter_system_set(setting: &str, value: &str) -> (r: String)
    ensures
        r@ == set_statement(setting@, value@),
{
    let mut r = "ALTER SYSTEM SET ".to_owned();
    r.append(setting);
    r.append(" = ");
    r.append(value);
    r
}

/// The statement that registers the extension `name` in the current database.
pub fn create_extension(name: &str) -> (r: String)
    ensures
        r@ == create_extension_statement(name@),
{
    let mut r = "CREATE EXTENSION ".to_owned();
    r.append(name);
    r.append(";");
    r
}

/// The two statements that configure the server for the extension: preload
/// its library at start, and add its schema to the search path. They take
/// effect at the next start of the server.
pub fn configure_statements() -> (r: Vec<String>)
    ensures
        r@.len() == 2,
        r@[0]@ == set_statement("shared_preload_libraries"@, "\"vectors.so\""@),
        r@[1]@ == set_statement("search_path"@, "\"$user\", public, vectors"@),
{
    let mut r: Vec<String> = Vec::new();
    r.push(alter_system_set("shared_preload_libraries", "\"vectors.so\""));
    r.push(alter_system_set("search_path", "\"$user\", public, vectors"));
    r
}

/// The statement that activates the extension, once the server has been
/// restarted with its library preloaded.
pub fn enable_statement() -> (r: String)
    ensures
        r@ == create_extension_statement(EXTENSION_NAME@),
{
    create_extension(EXTENSION_NAME)
}

/// The read queries that exercise the extension's distance operators.
pub fn distance_queries() -> (r: Vec<&'static str>)
    ensures
        r@.len() == 3,
        r@[0]@ == SQUARED_EUCLIDEAN_QUERY@,
        r@[1]@ == NEGATIVE_DOT_QUERY@,
        r@[2]@ == COSINE_QUERY@,
{
    let mut r: Vec<&'static str> = Vec::new();
    r.push(SQUARED_EUCLIDEAN_QUERY);
    r.push(NEGATIVE_DOT_QUERY);
    r.push(COSINE_QUERY);
    r
}

} // verus!
