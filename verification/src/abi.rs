//! The C header that declares the ABI the library's entry points export.
use vstd::prelude::*;

verus! {

/// `sapient.h`: the C declarations of the ABI, with the version macro, the
/// status and backend codes, and a comment above every entry point.
pub const SAPIENT_H: &'static str = "/*
 * sapient.h - the C ABI for embedding SAPIENT.
 *
 * Opaque handles only; every string or handle handed out has a matching free;
 * errors come back through a `sapient_error_t **err` out-parameter (pass NULL to
 * keep only the status code); strings are NUL-terminated UTF-8.
 *
 * Every function is blocking. Generation calls on one session serialize on the
 * engine's lock; two different sessions run concurrently.
 */
#ifndef SAPIENT_H
#define SAPIENT_H

#include <stdbool.h>
#include <stddef.h>
#include <stdint.h>

#ifdef __cplusplus
extern \"C\" {
#endif

/* Version of the C ABI (not of the engine). Compare with sapient_api_version. */
#define SAPIENT_API_VERSION 1u

/* Status codes. */
#define SAPIENT_OK 0
#define SAPIENT_ERR_INVALID_ARGUMENT -1
#define SAPIENT_ERR_LOAD -2
#define SAPIENT_ERR_GENERATION -3
#define SAPIENT_ERR_INTERNAL -4
#define SAPIENT_ERR_PANIC -5

/* Backend selection. */
#define SAPIENT_BACKEND_AUTO 0
#define SAPIENT_BACKEND_CPU 1
#define SAPIENT_BACKEND_METAL 2
#define SAPIENT_BACKEND_WGPU 3

/* Opaque error detail; free with sapient_error_free. */
typedef struct sapient_error_t sapient_error_t;

/* Opaque loaded model plus its conversation; free with sapient_session_free. */
typedef struct sapient_session_t sapient_session_t;

/*
 * Generation options. Start from sapient_options_default and override fields.
 * Negative floats and a negative top_k mean \"unset\"; all four sampling fields
 * unset selects greedy decoding.
 */
typedef struct sapient_options_t {
    uint32_t max_tokens;
    float temperature;
    float top_p;
    int32_t top_k;
    float repetition_penalty;
    const char *system_prompt;
    int backend;
} sapient_options_t;

/* Token callback: the fragment is valid only during the call; return false to cancel. */
typedef bool (*sapient_token_cb)(const char *token, void *user_data);

/*
 * The status code carried by an error; SAPIENT_ERR_INVALID_ARGUMENT for NULL.
 */
int sapient_error_code(const sapient_error_t *err);

/*
 * Human-readable error message, valid until sapient_error_free. Do not free it
 * separately. NULL for a NULL error.
 */
const char *sapient_error_message(const sapient_error_t *err);

/*
 * Release an error. Safe to call with NULL.
 */
void sapient_error_free(sapient_error_t *err);

/*
 * Release a string returned by this library. Safe to call with NULL.
 */
void sapient_string_free(char *s);

/*
 * Engine version string, owned by the library: do not free.
 */
const char *sapient_version(void);

/*
 * ABI version of this library; compare with SAPIENT_API_VERSION.
 */
uint32_t sapient_api_version(void);

/*
 * Point the model cache at a directory. Call before loading.
 */
int sapient_set_cache_dir(const char *path, sapient_error_t **err);

/*
 * Number of models in the curated catalog.
 */
size_t sapient_model_count(void);

/*
 * Alias of catalog entry `index`, or NULL if out of range. Free with
 * sapient_string_free.
 */
char *sapient_model_alias(size_t index);

/*
 * Resolve an alias to its repository id; on success writes a caller-owned
 * string to `out`.
 */
int sapient_resolve_alias(const char *name, char **out, sapient_error_t **err);

/*
 * Default options: 512 tokens, greedy decoding, no system prompt, automatic
 * backend.
 */
sapient_options_t sapient_options_default(void);

/*
 * Download (if needed) and load a model. `opts` may be NULL for defaults.
 * Returns NULL on failure, with detail in `err`.
 */
sapient_session_t *sapient_session_load(const char *model,
                                        const sapient_options_t *opts,
                                        sapient_error_t **err);

/*
 * Release a session and unload its model. Safe to call with NULL.
 */
void sapient_session_free(sapient_session_t *s);

/*
 * One blocking chat turn. On success writes a caller-owned reply to `out` and
 * commits the turn to the session history.
 */
int sapient_chat(sapient_session_t *s, const char *prompt, char **out,
                 sapient_error_t **err);

/*
 * Streaming chat turn: `on_token` runs on the calling thread for each fragment.
 * On success writes the full (possibly cancelled-partial) reply to `out`.
 */
int sapient_chat_stream(sapient_session_t *s, const char *prompt,
                        sapient_token_cb on_token, void *user_data, char **out,
                        sapient_error_t **err);

/*
 * Clear the conversation, keeping the model loaded; the system prompt is
 * seeded again.
 */
int sapient_session_reset(sapient_session_t *s, sapient_error_t **err);

/*
 * Number of messages in the session transcript.
 */
size_t sapient_transcript_len(sapient_session_t *s);

/*
 * Transcript entry `index` as \"role\\tcontent\", or NULL if out of range. Free
 * with sapient_string_free.
 */
char *sapient_transcript_at(sapient_session_t *s, size_t index);

/*
 * The model alias this session was loaded with. Free with sapient_string_free.
 */
char *sapient_session_model(sapient_session_t *s);

/*
 * Human-readable resolved backend. Free with sapient_string_free.
 */
char *sapient_session_backend(sapient_session_t *s);

/*
 * Whether the weights are memory-mapped.
 */
bool sapient_session_is_mmap(sapient_session_t *s);

#ifdef __cplusplus
}
#endif

#endif /* SAPIENT_H */
";

} // verus!
