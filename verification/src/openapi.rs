//! The contract's published interface description: an OpenAPI 3.0 schema
//! and Markdown documentation.

use vstd::prelude::*;

verus! {

pub const SCHEMA_HEADER: &'static str = "{\"openapi\":\"3.0.0\",\"info\":{\"title\":\"QuorumCredit API\",\"version\":\"1.0.0\",\"description\":\"Decentralized microlending platform powered by social trust\"},\"servers\":[{\"url\":\"https://soroban-testnet.stellar.org\",\"description\":\"Testnet\"},{\"url\":\"https://rpc.mainnet.stellar.org\",\"description\":\"Mainnet\"}],\"paths\":{";

pub const SCHEMA_INITIALIZE: &'static str = "\"/initialize\":{\"post\":{\"summary\":\"Initialize contract\",\"operationId\":\"initialize\",\"requestBody\":{\"required\":true,\"content\":{\"application/json\":{\"schema\":{\"type\":\"object\",\"properties\":{\"deployer\":{\"type\":\"string\"},\"admins\":{\"type\":\"array\",\"items\":{\"type\":\"string\"}},\"admin_threshold\":{\"type\":\"integer\"},\"token\":{\"type\":\"string\"}}}}}},\"responses\":{\"200\":{\"description\":\"Contract initialized successfully\"}}}},";

pub const SCHEMA_VOUCH: &'static str = "\"/vouch\":{\"post\":{\"summary\":\"Stake XLM to vouch for a borrower\",\"operationId\":\"vouch\",\"requestBody\":{\"required\":true,\"content\":{\"application/json\":{\"schema\":{\"type\":\"object\",\"properties\":{\"voucher\":{\"type\":\"string\"},\"borrower\":{\"type\":\"string\"},\"stake\":{\"type\":\"integer\"},\"token\":{\"type\":\"string\"}}}}}},\"responses\":{\"200\":{\"description\":\"Vouch created successfully\"}}}},";

pub const SCHEMA_REQUEST_LOAN: &'static str = "\"/request_loan\":{\"post\":{\"summary\":\"Request a loan\",\"operationId\":\"request_loan\",\"requestBody\":{\"required\":true,\"content\":{\"application/json\":{\"schema\":{\"type\":\"object\",\"properties\":{\"borrower\":{\"type\":\"string\"},\"amount\":{\"type\":\"integer\"},\"threshold\":{\"type\":\"integer\"},\"loan_purpose\":{\"type\":\"string\"},\"token\":{\"type\":\"string\"}}}}}},\"responses\":{\"200\":{\"description\":\"Loan disbursed successfully\"}}}},";

pub const SCHEMA_REPAY: &'static str = "\"/repay\":{\"post\":{\"summary\":\"Repay a loan\",\"operationId\":\"repay\",\"requestBody\":{\"required\":true,\"content\":{\"application/json\":{\"schema\":{\"type\":\"object\",\"properties\":{\"borrower\":{\"type\":\"string\"},\"payment\":{\"type\":\"integer\"}}}}}},\"responses\":{\"200\":{\"description\":\"Loan repaid successfully\"}}}},";

pub const SCHEMA_GET_LOAN: &'static str = "\"/get_loan/{borrower}\":{\"get\":{\"summary\":\"Get loan details\",\"operationId\":\"get_loan\",\"parameters\":[{\"name\":\"borrower\",\"in\":\"path\",\"required\":true,\"schema\":{\"type\":\"string\"}}],\"responses\":{\"200\":{\"description\":\"Loan details\",\"content\":{\"application/json\":{\"schema\":{\"type\":\"object\"}}}}}}},";

pub const SCHEMA_GET_VOUCHES: &'static str = "\"/get_vouches/{borrower}\":{\"get\":{\"summary\":\"Get all vouches for a borrower\",\"operationId\":\"get_vouches\",\"parameters\":[{\"name\":\"borrower\",\"in\":\"path\",\"required\":true,\"schema\":{\"type\":\"string\"}}],\"responses\":{\"200\":{\"description\":\"List of vouches\",\"content\":{\"application/json\":{\"schema\":{\"type\":\"array\"}}}}}}},";

pub const SCHEMA_SEARCH: &'static str = "\"/search\":{\"get\":{\"summary\":\"Search loans and vouches\",\"operationId\":\"search\",\"parameters\":[{\"name\":\"q\",\"in\":\"query\",\"required\":true,\"schema\":{\"type\":\"string\"}},{\"name\":\"limit\",\"in\":\"query\",\"schema\":{\"type\":\"integer\",\"default\":10}}],\"responses\":{\"200\":{\"description\":\"Search results\",\"content\":{\"application/json\":{\"schema\":{\"type\":\"object\"}}}}}}},";

pub const SCHEMA_METRICS: &'static str = "\"/metrics\":{\"get\":{\"summary\":\"Get Prometheus metrics\",\"operationId\":\"metrics\",\"responses\":{\"200\":{\"description\":\"Prometheus metrics\",\"content\":{\"text/plain\":{\"schema\":{\"type\":\"string\"}}}}}}}";

pub const SCHEMA_COMPONENTS: &'static str = "},\"components\":{\"schemas\":{\"LoanRecord\":{\"type\":\"object\",\"properties\":{\"id\":{\"type\":\"integer\"},\"borrower\":{\"type\":\"string\"},\"amount\":{\"type\":\"integer\"},\"amount_repaid\":{\"type\":\"integer\"},\"status\":{\"type\":\"string\",\"enum\":[\"Active\",\"Repaid\",\"Defaulted\"]},\"created_at\":{\"type\":\"integer\"},\"deadline\":{\"type\":\"integer\"}}},\"VouchRecord\":{\"type\":\"object\",\"properties\":{\"voucher\":{\"type\":\"string\"},\"stake\":{\"type\":\"integer\"},\"vouch_timestamp\":{\"type\":\"integer\"}}}}}}";

pub const DOC_TITLE: &'static str = "# QuorumCredit API Documentation\n\n";

pub const DOC_OVERVIEW: &'static str = "## Overview\nQuorumCredit is a decentralized microlending platform on Stellar Soroban.\n\n";

pub const DOC_BASE_URL: &'static str = "## Base URL\n- Testnet: `https://soroban-testnet.stellar.org`\n- Mainnet: `https://rpc.mainnet.stellar.org`\n\n";

pub const DOC_ENDPOINTS: &'static str = "## Endpoints\n\n";

pub const DOC_INITIALIZE: &'static str = "### Initialize Contract\n`POST /initialize`\n\nInitialize the contract with admin addresses and configuration.\n\n**Parameters:**\n- `deployer` (string): Deployer address\n- `admins` (array): List of admin addresses\n- `admin_threshold` (integer): Required admin signatures\n- `token` (string): Primary token address\n\n";

pub const DOC_VOUCH: &'static str = "### Vouch\n`POST /vouch`\n\nStake XLM to vouch for a borrower.\n\n**Parameters:**\n- `voucher` (string): Voucher address\n- `borrower` (string): Borrower address\n- `stake` (integer): Stake amount in stroops\n- `token` (string): Token address\n\n";

pub const DOC_REQUEST_LOAN: &'static str = "### Request Loan\n`POST /request_loan`\n\nRequest a loan if sufficient vouches exist.\n\n**Parameters:**\n- `borrower` (string): Borrower address\n- `amount` (integer): Loan amount in stroops\n- `threshold` (integer): Minimum stake required\n- `loan_purpose` (string): Purpose of the loan\n- `token` (string): Token address\n\n";

pub const DOC_REPAY: &'static str = "### Repay Loan\n`POST /repay`\n\nRepay a loan and distribute yield to vouchers.\n\n**Parameters:**\n- `borrower` (string): Borrower address\n- `payment` (integer): Payment amount in stroops\n\n";

pub const DOC_GET_LOAN: &'static str = "### Get Loan\n`GET /get_loan/{borrower}`\n\nGet loan details for a borrower.\n\n";

pub const DOC_GET_VOUCHES: &'static str = "### Get Vouches\n`GET /get_vouches/{borrower}`\n\nGet all vouches for a borrower.\n\n";

pub const DOC_SEARCH: &'static str = "### Search\n`GET /search?q=query&limit=10`\n\nSearch loans and vouches.\n\n**Query Parameters:**\n- `q` (string): Search query\n- `limit` (integer): Maximum results (default: 10, max: 100)\n\n";

pub const DOC_METRICS: &'static str = "### Metrics\n`GET /metrics`\n\nGet Prometheus-compatible metrics.\n\n";

/// The OpenAPI 3.0 schema of the contract, as JSON text.
pub open spec fn openapi_schema_text() -> Seq<char> {
    SCHEMA_HEADER@
        + SCHEMA_INITIALIZE@
        + SCHEMA_VOUCH@
        + SCHEMA_REQUEST_LOAN@
        + SCHEMA_REPAY@
        + SCHEMA_GET_LOAN@
        + SCHEMA_GET_VOUCHES@
        + SCHEMA_SEARCH@
        + SCHEMA_METRICS@
        + SCHEMA_COMPONENTS@
}

/// The API documentation of the contract, as Markdown text.
pub open spec fn api_documentation_text() -> Seq<char> {
    DOC_TITLE@
        + DOC_OVERVIEW@
        + DOC_BASE_URL@
        + DOC_ENDPOINTS@
        + DOC_INITIALIZE@
        + DOC_VOUCH@
        + DOC_REQUEST_LOAN@
        + DOC_REPAY@
        + DOC_GET_LOAN@
        + DOC_GET_VOUCHES@
        + DOC_SEARCH@
        + DOC_METRICS@
}

/// Generates the OpenAPI 3.0 schema of the contract.
pub fn generate_openapi_schema() -> (r: String)
    ensures
        r@ == openapi_schema_text(),
{
    let mut schema = String::new();
    schema.append(SCHEMA_HEADER);
    schema.append(SCHEMA_INITIALIZE);
    schema.append(SCHEMA_VOUCH);
    schema.append(SCHEMA_REQUEST_LOAN);
    schema.append(SCHEMA_REPAY);
    schema.append(SCHEMA_GET_LOAN);
    schema.append(SCHEMA_GET_VOUCHES);
    schema.append(SCHEMA_SEARCH);
    schema.append(SCHEMA_METRICS);
    schema.append(SCHEMA_COMPONENTS);
    assert(schema@ =~= openapi_schema_text());
    schema
}

/// Generates the API documentation in Markdown.
pub fn generate_api_documentation() -> (r: String)
    ensures
        r@ == api_documentation_text(),
{
    let mut doc = String::new();
    doc.append(DOC_TITLE);
    doc.append(DOC_OVERVIEW);
    doc.append(DOC_BASE_URL);
    doc.append(DOC_ENDPOINTS);
    doc.append(DOC_INITIALIZE);
    doc.append(DOC_VOUCH);
    doc.append(DOC_REQUEST_LOAN);
    doc.append(DOC_REPAY);
    doc.append(DOC_GET_LOAN);
    doc.append(DOC_GET_VOUCHES);
    doc.append(DOC_SEARCH);
    doc.append(DOC_METRICS);
    assert(doc@ =~= api_documentation_text());
    doc
}

} // verus!
